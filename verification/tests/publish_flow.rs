use bitwhip::client::{Client, Direction, IoEvent, RecvStep, SignalOutcome};
use bitwhip::media::MediaItem;

fn strings(xs: &[&str]) -> Vec<String> {
    xs.iter().map(|s| s.to_string()).collect()
}

/// Negotiate a publisher against a second engine acting as the server.
fn negotiated_publisher() -> Client {
    let mut publisher =
        Client::new_with_interfaces(&strings(&["192.168.1.5"]), 4000, false).expect("candidate");
    let req = publisher
        .send_whip_request("http://s/publish".to_string(), &None, Direction::Publish)
        .expect("offer");
    let mut server =
        Client::new_with_interfaces(&strings(&["10.0.0.7"]), 4001, false).expect("candidate");
    let answer = server.accept_whip_request(req.body).expect("answer");
    match publisher.handle_signal_response(201, None, answer) {
        Ok(SignalOutcome::Established) => publisher,
        other => panic!("negotiation must establish, got {other:?}"),
    }
}

#[test]
fn negotiated_session_accepts_writes() {
    let mut publisher = negotiated_publisher();
    // The negotiated configuration holds the pinned H.264 profile, so a
    // write plan exists and the engine takes the access unit.
    for i in 0..60u64 {
        let pts_us = i * 16_667;
        let frame = vec![0, 0, 0, 1, 0x65, i as u8];
        match publisher.send_video(frame, pts_us) {
            Ok(()) => {}
            Err(e) => panic!("write {i} rejected: {e:?}"),
        }
    }
}

#[test]
fn each_transmit_carries_one_datagram_for_the_peer() {
    let mut publisher = negotiated_publisher();
    let mut transmits = 0;
    for _ in 0..2000 {
        if publisher.is_finished() {
            break;
        }
        match publisher.recv_begin().expect("no engine fault while idle") {
            RecvStep::Transmit { dest, payload } => {
                assert!(!payload.is_empty(), "a transmit carries one datagram");
                assert!(dest.contains("10.0.0.7"), "sent towards the peer candidate: {dest}");
                transmits += 1;
                if transmits >= 3 {
                    break;
                }
            }
            RecvStep::Await { .. } => {
                publisher.recv_complete(IoEvent::DeadlineElapsed).expect("deadline feed");
            }
            RecvStep::Yield(_) => {}
        }
    }
    assert!(transmits >= 1, "ICE must emit binding requests after negotiation");
}

#[test]
fn drain_writes_every_item() {
    let mut publisher = negotiated_publisher();
    let items: Vec<MediaItem> = (0..10u64)
        .map(|i| MediaItem { payload: vec![0, 0, 0, 1, i as u8], pts_us: i * 16_667 })
        .collect();
    publisher.drain_outbound(&items);
    assert!(!publisher.is_finished());
}
