use bitwhip::addr::HostAddr;
use bitwhip::client::{dispatch_timeout, Client, Direction, IoEvent, RecvStep, TimeoutStep, WebrtcError};
use bitwhip::engine::Proto;
use bitwhip::events::{TransportEvent, WebrtcEvent};
use bitwhip::media::CodecKind;

fn strings(xs: &[&str]) -> Vec<String> {
    xs.iter().map(|s| s.to_string()).collect()
}

fn session() -> Client {
    let addrs = strings(&["192.168.1.5"]);
    Client::new_with_interfaces(&addrs, 4000, false).expect("one candidate")
}

/// Drive `recv_begin` until it asks the caller to wait.
fn step_to_await(client: &mut Client) -> u64 {
    for _ in 0..100 {
        match client.recv_begin().expect("engine must not fault while idle") {
            RecvStep::Await { wait_us } => return wait_us,
            RecvStep::Yield(_) | RecvStep::Transmit { .. } => {}
        }
    }
    panic!("driver never reached an I/O wait");
}

#[test]
fn timeout_dispatch_feeds_when_due_and_caps_the_wait() {
    assert_eq!(dispatch_timeout(0), TimeoutStep::FeedNow);
    assert_eq!(dispatch_timeout(1), TimeoutStep::Wait { wait_us: 1 });
    assert_eq!(dispatch_timeout(999), TimeoutStep::Wait { wait_us: 999 });
    assert_eq!(dispatch_timeout(1000), TimeoutStep::Wait { wait_us: 1000 });
    assert_eq!(dispatch_timeout(1001), TimeoutStep::Wait { wait_us: 1000 });
    assert_eq!(dispatch_timeout(u64::MAX), TimeoutStep::Wait { wait_us: 1000 });
}

#[test]
fn wait_is_capped_at_one_millisecond() {
    let mut client = session();
    let wait_us = step_to_await(&mut client);
    assert!(wait_us <= 1000, "driver asked to sleep {wait_us} us");
}

#[test]
fn connection_reset_is_benign() {
    let mut client = session();
    let _ = step_to_await(&mut client);
    match client.recv_complete(IoEvent::ConnectionReset) {
        Ok(WebrtcEvent::Continue) => {}
        other => panic!("expected Continue on connection reset, got {other:?}"),
    }
    assert!(!client.is_finished(), "a reset must not end the session");
}

#[test]
fn deadline_elapse_continues() {
    let mut client = session();
    let _ = step_to_await(&mut client);
    match client.recv_complete(IoEvent::DeadlineElapsed) {
        Ok(WebrtcEvent::Continue) => {}
        other => panic!("expected Continue on elapsed deadline, got {other:?}"),
    }
}

#[test]
fn socket_failure_is_fatal() {
    let mut client = session();
    let _ = step_to_await(&mut client);
    match client.recv_complete(IoEvent::SocketError) {
        Err(WebrtcError::NetworkError) => {}
        other => panic!("expected NetworkError, got {other:?}"),
    }
    assert!(client.is_finished());
}

#[test]
fn inbound_datagram_is_stamped_with_reported_local() {
    let client = session();
    let peer = HostAddr { a: 203, b: 0, c: 113, d: 9, port: 9999 };
    let input = client.make_receive_input(peer, vec![1, 2, 3]);
    assert_eq!(input.proto, Proto::Udp);
    assert_eq!(input.source, peer);
    assert_eq!(input.destination, client.local_address());
    assert_eq!(input.destination, HostAddr { a: 192, b: 168, c: 1, d: 5, port: 4000 });
    assert_eq!(input.payload, vec![1, 2, 3]);
}

#[test]
fn connected_is_delivered_once() {
    let mut client = session();
    assert!(matches!(client.apply_event(TransportEvent::Connected), WebrtcEvent::Connected));
    assert!(client.is_connected());
    assert!(matches!(client.apply_event(TransportEvent::Connected), WebrtcEvent::Continue));
}

#[test]
fn media_before_connected_collapses_to_continue() {
    let mut client = session();
    let ev = client.apply_event(TransportEvent::Media {
        payload: vec![0, 0, 0, 1],
        codec: CodecKind::H264,
    });
    assert!(matches!(ev, WebrtcEvent::Continue));
}

#[test]
fn media_after_connected_is_delivered() {
    let mut client = session();
    let _ = client.apply_event(TransportEvent::Connected);
    let ev = client.apply_event(TransportEvent::Media {
        payload: vec![0, 0, 0, 1, 0x65],
        codec: CodecKind::H264,
    });
    match ev {
        WebrtcEvent::MediaIngress { payload, codec } => {
            assert_eq!(payload, vec![0, 0, 0, 1, 0x65]);
            assert_eq!(codec, CodecKind::H264);
        }
        other => panic!("expected MediaIngress, got {other:?}"),
    }
}

#[test]
fn disconnect_ends_the_session() {
    let mut client = session();
    let _ = client.apply_event(TransportEvent::Connected);
    let ev = client.apply_event(TransportEvent::IceDisconnected);
    assert!(matches!(ev, WebrtcEvent::Disconnected));
    assert!(client.is_finished(), "after Disconnected nothing more is drained");
}

#[test]
fn other_engine_events_collapse() {
    let mut client = session();
    assert!(matches!(client.apply_event(TransportEvent::IceChange), WebrtcEvent::Continue));
    assert!(matches!(client.apply_event(TransportEvent::Stats), WebrtcEvent::Stats));
    assert!(matches!(client.apply_event(TransportEvent::Other), WebrtcEvent::Continue));
    assert!(matches!(
        client.apply_event(TransportEvent::MediaAdded),
        WebrtcEvent::CodecNegotiated
    ));
}

#[test]
fn send_without_negotiation_is_send_error() {
    let mut client = session();
    // Declaring the track without a negotiated answer leaves no matching
    // payload type.
    let _req = client
        .send_whip_request("http://s/p".to_string(), &None, Direction::Publish)
        .expect("offer");
    match client.send_video(vec![0, 0, 0, 1], 0) {
        Err(WebrtcError::SendError(_)) => {}
        other => panic!("expected SendError, got {other:?}"),
    }
}

#[test]
fn enumerated_interfaces_build_a_session_or_none() {
    // Which interfaces exist depends on the machine; either outcome is
    // legitimate, and a fresh session starts idle.
    match Client::new(4500, false) {
        Ok(c) => {
            assert!(!c.is_connected());
            assert!(!c.is_finished());
        }
        Err(e) => assert!(matches!(e, WebrtcError::NoCandidates)),
    }
}

#[test]
fn send_without_track_is_ignored() {
    let mut client = session();
    assert!(client.send_video(vec![0, 0, 0, 1], 0).is_ok());
}
