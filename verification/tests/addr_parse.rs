use bitwhip::addr::parse_ipv4;

#[test]
fn parses_canonical_quad() {
    assert_eq!(parse_ipv4("192.168.1.7"), Some((192, 168, 1, 7)));
    assert_eq!(parse_ipv4("10.0.0.1"), Some((10, 0, 0, 1)));
    assert_eq!(parse_ipv4("0.0.0.0"), Some((0, 0, 0, 0)));
    assert_eq!(parse_ipv4("255.255.255.255"), Some((255, 255, 255, 255)));
    assert_eq!(parse_ipv4("127.0.0.1"), Some((127, 0, 0, 1)));
}

#[test]
fn rejects_leading_zeros() {
    assert_eq!(parse_ipv4("192.168.001.7"), None);
    assert_eq!(parse_ipv4("01.2.3.4"), None);
    assert_eq!(parse_ipv4("1.2.3.00"), None);
}

#[test]
fn rejects_out_of_range_groups() {
    assert_eq!(parse_ipv4("256.1.1.1"), None);
    assert_eq!(parse_ipv4("1.1.1.999"), None);
    assert_eq!(parse_ipv4("300.300.300.300"), None);
}

#[test]
fn rejects_wrong_shape() {
    assert_eq!(parse_ipv4(""), None);
    assert_eq!(parse_ipv4("1.2.3"), None);
    assert_eq!(parse_ipv4("1.2.3.4.5"), None);
    assert_eq!(parse_ipv4("1..2.3"), None);
    assert_eq!(parse_ipv4(".1.2.3"), None);
    assert_eq!(parse_ipv4("1.2.3."), None);
    assert_eq!(parse_ipv4("a.b.c.d"), None);
    assert_eq!(parse_ipv4("1.2.3.4 "), None);
}

#[test]
fn rejects_ipv6_text() {
    assert_eq!(parse_ipv4("::1"), None);
    assert_eq!(parse_ipv4("fe80::1"), None);
    assert_eq!(parse_ipv4("2001:db8::7"), None);
}
