use p2p_swarm::address::Multiaddr;
use p2p_swarm::bytes::{bytes_copy, bytes_equal};

#[test]
fn unknown_protocol_is_rejected() {
    assert!(Multiaddr::parse("/ip9/bogus").is_none());
}

#[test]
fn tcp_address_round_trips_to_the_same_text() {
    let addr = Multiaddr::parse("/ip4/127.0.0.1/tcp/80").expect("a valid address");
    assert_eq!(addr.to_text(), Some(String::from("/ip4/127.0.0.1/tcp/80")));
}

#[test]
fn default_listen_address_parses_to_its_binary_form() {
    let addr = Multiaddr::parse("/ip4/0.0.0.0/tcp/0").expect("a valid address");
    assert_eq!(addr.to_bytes(), vec![4u8, 0, 0, 0, 0, 6, 0, 0]);
}

#[test]
fn port_is_encoded_big_endian() {
    let addr = Multiaddr::parse("/ip4/10.1.2.3/tcp/4001").expect("a valid address");
    assert_eq!(addr.to_bytes(), vec![4u8, 10, 1, 2, 3, 6, 0x0f, 0xa1]);
}

#[test]
fn empty_text_is_no_address() {
    assert!(Multiaddr::parse("").is_none());
    assert!(Multiaddr::parse_utf8(&[]).is_none());
}

#[test]
fn text_without_leading_slash_is_rejected() {
    assert!(Multiaddr::parse("ip4/127.0.0.1/tcp/80").is_none());
}

#[test]
fn one_bad_component_spoils_the_whole_address() {
    assert!(Multiaddr::parse("/ip4/127.0.0.1/tcp/notaport").is_none());
    assert!(Multiaddr::parse("/ip4/300.0.0.1/tcp/80").is_none());
    assert!(Multiaddr::parse("/ip4/127.0.0.1/tcp").is_none());
}

#[test]
fn bytes_that_are_no_utf8_are_rejected() {
    assert!(Multiaddr::parse_utf8(&[0x2f, 0xff, 0xfe]).is_none());
}

#[test]
fn from_bytes_accepts_what_parse_produced() {
    let addr = Multiaddr::parse("/ip6/::1/tcp/9").expect("a valid address");
    let again = Multiaddr::from_bytes(addr.to_bytes()).expect("valid bytes");
    assert!(addr.same(&again));
    assert_eq!(again.to_text(), Some(String::from("/ip6/::1/tcp/9")));
}

#[test]
fn from_bytes_rejects_garbage() {
    assert!(Multiaddr::from_bytes(vec![4u8, 1, 2]).is_none());
    assert!(Multiaddr::from_bytes(Vec::new()).is_none());
    assert!(Multiaddr::from_bytes(vec![0xffu8, 0xff, 0xff, 0xff, 0xff, 0xff]).is_none());
}

#[test]
fn tcp_over_ip_is_recognised() {
    assert!(Multiaddr::parse("/ip4/0.0.0.0/tcp/4001").unwrap().is_tcp_over_ip());
    assert!(Multiaddr::parse("/ip6/::1/tcp/4001").unwrap().is_tcp_over_ip());
    assert!(!Multiaddr::parse("/ip4/1.2.3.4/udp/5").unwrap().is_tcp_over_ip());
    assert!(!Multiaddr::parse("/ip4/1.2.3.4").unwrap().is_tcp_over_ip());
    assert!(!Multiaddr::parse("/ip4/1.2.3.4/tcp/5/tls").unwrap().is_tcp_over_ip());
    assert!(!Multiaddr::parse("/dns/example.org/tcp/5").unwrap().is_tcp_over_ip());
}

#[test]
fn same_compares_by_value() {
    let a = Multiaddr::parse("/ip4/1.2.3.4/tcp/5").unwrap();
    let b = Multiaddr::parse("/ip4/1.2.3.4/tcp/5").unwrap();
    let c = Multiaddr::parse("/ip4/1.2.3.4/tcp/6").unwrap();
    assert!(a.same(&b));
    assert!(!a.same(&c));
    assert!(a.same(&a.clone()));
    assert_eq!(a, b);
    assert_ne!(a, c);
}

#[test]
fn byte_helpers_copy_and_compare() {
    assert_eq!(bytes_copy(&[1, 2, 3]), vec![1u8, 2, 3]);
    assert_eq!(bytes_copy(&[]), Vec::<u8>::new());
    assert!(bytes_equal(&[1, 2, 3], &[1, 2, 3]));
    assert!(!bytes_equal(&[1, 2, 3], &[1, 2, 4]));
    assert!(!bytes_equal(&[1, 2, 3], &[1, 2]));
    assert!(bytes_equal(&[], &[]));
}
