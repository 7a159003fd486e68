use bitwhip::client::{
    Client, Direction, SignalFault, SignalOutcome, SignalRequest, WebrtcError,
};
use bitwhip::signal::build_server_response;

fn strings(xs: &[&str]) -> Vec<String> {
    xs.iter().map(|s| s.to_string()).collect()
}

fn publisher() -> Client {
    let addrs = strings(&["192.168.1.5"]);
    Client::new_with_interfaces(&addrs, 4000, false).expect("one candidate")
}

fn subscriber_server() -> Client {
    let addrs = strings(&["10.0.0.7"]);
    Client::new_with_interfaces(&addrs, 4001, false).expect("one candidate")
}

fn start_publish(client: &mut Client, token: Option<&str>) -> SignalRequest {
    client
        .send_whip_request(
            "http://s/publish".to_string(),
            &token.map(|t| t.to_string()),
            Direction::Publish,
        )
        .expect("offer must be produced")
}

fn header<'a>(req: &'a SignalRequest, name: &str) -> Option<&'a str> {
    req.headers.iter().find(|h| h.name == name).map(|h| h.value.as_str())
}

#[test]
fn request_carries_whip_headers_and_offer() {
    let mut client = publisher();
    let req = start_publish(&mut client, Some("t"));
    assert_eq!(req.url, "http://s/publish");
    assert_eq!(header(&req, "Authorization"), Some("Bearer t"));
    assert_eq!(header(&req, "Content-Type"), Some("application/sdp"));
    assert_eq!(header(&req, "Accept"), Some("application/sdp"));
    assert_eq!(header(&req, "User-Agent"), Some("bitwhip"));
    let body = String::from_utf8(req.body.clone()).expect("offer is text");
    assert!(body.starts_with("v=0"), "offer must be SDP: {body}");
    // The submitted host candidate appears in the offer.
    assert!(body.contains("192.168.1.5"), "offer must carry the candidate: {body}");
}

#[test]
fn request_without_token_has_no_authorization() {
    let mut client = publisher();
    let req = start_publish(&mut client, None);
    assert_eq!(header(&req, "Authorization"), None);
    assert_eq!(req.headers.len(), 3);
}

#[test]
fn redirect_reposts_identical_body_and_headers() {
    let mut client = publisher();
    let req = start_publish(&mut client, Some("t"));
    let out = client
        .handle_signal_response(302, Some("http://b/y".to_string()), Vec::new())
        .expect("redirect must be followed");
    match out {
        SignalOutcome::Repost(req2) => {
            assert_eq!(req2.url, "http://b/y");
            assert_eq!(req2.body, req.body, "re-POST must carry the identical body");
            assert_eq!(req2.headers.len(), req.headers.len());
            for (a, b) in req.headers.iter().zip(req2.headers.iter()) {
                assert_eq!(a.name, b.name);
                assert_eq!(a.value, b.value);
            }
        }
        SignalOutcome::Established => panic!("302 must not establish"),
    }
}

#[test]
fn redirect_without_location_is_fatal() {
    let mut client = publisher();
    let _req = start_publish(&mut client, None);
    match client.handle_signal_response(302, None, Vec::new()) {
        Err(WebrtcError::ServerError(SignalFault::Status(302))) => {}
        other => panic!("expected fatal 302 without Location, got {other:?}"),
    }
}

#[test]
fn redirect_chain_is_bounded() {
    let mut client = publisher();
    let _req = start_publish(&mut client, None);
    for hop in 0..8 {
        let out = client
            .handle_signal_response(302, Some(format!("http://hop/{hop}")), Vec::new())
            .expect("within the hop bound");
        assert!(matches!(out, SignalOutcome::Repost(_)));
    }
    match client.handle_signal_response(302, Some("http://hop/8".to_string()), Vec::new()) {
        Err(WebrtcError::ServerError(SignalFault::TooManyRedirects)) => {}
        other => panic!("expected TooManyRedirects, got {other:?}"),
    }
}

#[test]
fn redirect_then_created_establishes() {
    let mut publisher = publisher();
    let _req = start_publish(&mut publisher, None);
    let out = publisher
        .handle_signal_response(302, Some("http://b/y".to_string()), Vec::new())
        .expect("redirect must be followed");
    let req2 = match out {
        SignalOutcome::Repost(r) => r,
        SignalOutcome::Established => panic!("302 must not establish"),
    };
    let mut server = subscriber_server();
    let answer = server.accept_whip_request(req2.body).expect("answer to the reposted offer");
    assert!(matches!(
        publisher.handle_signal_response(201, None, answer),
        Ok(SignalOutcome::Established)
    ));
}

#[test]
fn auth_failure_carries_status() {
    let mut client = publisher();
    let _req = start_publish(&mut client, Some("t"));
    match client.handle_signal_response(401, None, Vec::new()) {
        Err(WebrtcError::ServerError(SignalFault::Status(401))) => {}
        other => panic!("expected ServerError with status 401, got {other:?}"),
    }
}

#[test]
fn status_200_is_not_success() {
    let mut client = publisher();
    let _req = start_publish(&mut client, None);
    match client.handle_signal_response(200, None, b"v=0".to_vec()) {
        Err(WebrtcError::ServerError(SignalFault::Status(200))) => {}
        other => panic!("expected ServerError for 200 OK, got {other:?}"),
    }
}

#[test]
fn malformed_answer_is_sdp_error() {
    let mut client = publisher();
    let _req = start_publish(&mut client, None);
    match client.handle_signal_response(201, None, b"not sdp at all".to_vec()) {
        Err(WebrtcError::SdpError) => {}
        other => panic!("expected SdpError, got {other:?}"),
    }
}

#[test]
fn offer_answer_round_trip_establishes() {
    let mut publisher = publisher();
    let req = start_publish(&mut publisher, Some("t"));

    let mut server = subscriber_server();
    let answer = server.accept_whip_request(req.body).expect("engine answers a real offer");
    let answer_text = String::from_utf8(answer.clone()).expect("answer is text");
    assert!(answer_text.starts_with("v=0"), "answer must be SDP: {answer_text}");

    match publisher.handle_signal_response(201, None, answer) {
        Ok(SignalOutcome::Established) => {}
        other => panic!("expected Established, got {other:?}"),
    }
}

#[test]
fn stray_framerate_line_in_answer_is_tolerated() {
    let mut publisher = publisher();
    let req = start_publish(&mut publisher, None);

    let mut server = subscriber_server();
    let mut answer = server.accept_whip_request(req.body).expect("engine answers a real offer");
    answer.extend_from_slice(b"a=framerate:60\r\n");

    match publisher.handle_signal_response(201, None, answer) {
        Ok(SignalOutcome::Established) => {}
        other => panic!("expected Established after sanitization, got {other:?}"),
    }
}

#[test]
fn rejected_offer_is_sdp_error() {
    let mut server = subscriber_server();
    match server.accept_whip_request(b"junk".to_vec()) {
        Err(WebrtcError::SdpError) => {}
        other => panic!("expected SdpError, got {other:?}"),
    }
}

#[test]
fn server_response_shape() {
    let mut publisher = publisher();
    let req = start_publish(&mut publisher, None);
    let mut server = subscriber_server();
    let answer = server.accept_whip_request(req.body).expect("engine answers a real offer");
    let response = build_server_response(answer.clone());
    assert_eq!(response.status, 201);
    assert_eq!(response.location, "/");
    assert_eq!(response.body, answer);
}
