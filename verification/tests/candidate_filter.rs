use bitwhip::addr::HostAddr;
use bitwhip::candidates::select_candidates;
use bitwhip::client::{Client, WebrtcError};

fn strings(xs: &[&str]) -> Vec<String> {
    xs.iter().map(|s| s.to_string()).collect()
}

#[test]
fn filters_loopback_and_keeps_usable() {
    let addrs = strings(&["127.0.0.1", "192.168.1.5"]);
    let cs = select_candidates(&addrs, 4000, false).expect("one usable address");
    assert_eq!(cs.list.len(), 1);
    assert_eq!(cs.list[0], HostAddr { a: 192, b: 168, c: 1, d: 5, port: 4000 });
    assert_eq!(cs.reported, cs.list[0]);
}

#[test]
fn filters_link_local() {
    let addrs = strings(&["169.254.3.4"]);
    assert!(select_candidates(&addrs, 4000, false).is_none());
}

#[test]
fn ignores_ipv6_entries() {
    let addrs = strings(&["fe80::1", "10.1.2.3", "::1"]);
    let cs = select_candidates(&addrs, 9, false).expect("one usable address");
    assert_eq!(cs.list.len(), 1);
    assert_eq!(cs.list[0], HostAddr { a: 10, b: 1, c: 2, d: 3, port: 9 });
}

#[test]
fn last_usable_address_is_reported() {
    let addrs = strings(&["10.0.0.1", "172.16.5.5", "192.168.1.5"]);
    let cs = select_candidates(&addrs, 777, false).expect("usable addresses");
    assert_eq!(cs.list.len(), 3);
    assert_eq!(cs.reported, HostAddr { a: 192, b: 168, c: 1, d: 5, port: 777 });
}

#[test]
fn forced_loopback_selects_only_loopback() {
    let addrs = strings(&["127.0.0.1", "192.168.1.2"]);
    let cs = select_candidates(&addrs, 5, true).expect("loopback usable");
    assert_eq!(cs.list.len(), 1);
    assert_eq!(cs.list[0], HostAddr { a: 127, b: 0, c: 0, d: 1, port: 5 });
}

#[test]
fn no_candidates_when_all_loopback() {
    let addrs = strings(&["127.0.0.1", "127.0.0.2"]);
    assert!(select_candidates(&addrs, 4000, false).is_none());
    match Client::new_with_interfaces(&addrs, 4000, false) {
        Err(WebrtcError::NoCandidates) => {}
        other => panic!("expected NoCandidates, got {:?}", other.map(|_| "client")),
    }
}
