use pglisten::addr::{parse_ipv4, parse_ipv4_bytes, IpOctets};
use pglisten::endpoint::{plan_endpoint, EndpointAddress, SetupError, LISTEN_BACKLOG};

#[test]
fn dotted_quads_parse_to_their_octets() {
    assert_eq!(
        parse_ipv4("0.0.0.0"),
        Some(IpOctets { o0: 0, o1: 0, o2: 0, o3: 0 })
    );
    assert_eq!(
        parse_ipv4("127.0.0.1"),
        Some(IpOctets { o0: 127, o1: 0, o2: 0, o3: 1 })
    );
    assert_eq!(
        parse_ipv4("255.255.255.255"),
        Some(IpOctets { o0: 255, o1: 255, o2: 255, o3: 255 })
    );
    assert_eq!(
        parse_ipv4("192.168.10.250"),
        Some(IpOctets { o0: 192, o1: 168, o2: 10, o3: 250 })
    );
}

#[test]
fn malformed_addresses_are_rejected() {
    assert_eq!(parse_ipv4(""), None);
    assert_eq!(parse_ipv4("1.2.3"), None);
    assert_eq!(parse_ipv4("1.2.3.4.5"), None);
    assert_eq!(parse_ipv4("1..2.3"), None);
    assert_eq!(parse_ipv4(".1.2.3"), None);
    assert_eq!(parse_ipv4("1.2.3."), None);
    assert_eq!(parse_ipv4("256.0.0.1"), None);
    assert_eq!(parse_ipv4("999.0.0.1"), None);
    assert_eq!(parse_ipv4("1234.0.0.1"), None);
    assert_eq!(parse_ipv4("01.2.3.4"), None);
    assert_eq!(parse_ipv4("00.0.0.0"), None);
    assert_eq!(parse_ipv4("a.b.c.d"), None);
    assert_eq!(parse_ipv4("1.2.3.4 "), None);
    assert_eq!(parse_ipv4("-1.2.3.4"), None);
    assert_eq!(parse_ipv4_bytes(&[0xFF, b'.', b'0', b'.', b'0', b'.', b'0']), None);
}

#[test]
fn plan_endpoint_accepts_a_dotted_quad() {
    assert_eq!(
        plan_endpoint("0.0.0.0", 5432),
        Ok(EndpointAddress { octets: IpOctets { o0: 0, o1: 0, o2: 0, o3: 0 }, port: 5432 })
    );
}

#[test]
fn plan_endpoint_refuses_an_unparseable_address_with_invalid_address() {
    assert_eq!(plan_endpoint("localhost", 5432), Err(SetupError::InvalidAddress));
    assert_eq!(plan_endpoint("10.0.0", 5432), Err(SetupError::InvalidAddress));
    assert_eq!(plan_endpoint("", 5432), Err(SetupError::InvalidAddress));
}

#[test]
fn backlog_is_ten() {
    assert_eq!(LISTEN_BACKLOG, 10);
}
