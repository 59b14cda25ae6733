use ptrscan::error::Error;
use ptrscan::network::{expand, NetworkRange};

fn ip(a: u32, b: u32, c: u32, d: u32) -> u32 {
    (a << 24) | (b << 16) | (c << 8) | d
}

#[test]
fn slash_30_yields_two_middle_hosts() {
    let hosts = expand("192.0.2.0/30").unwrap();
    assert_eq!(hosts, vec![ip(192, 0, 2, 1), ip(192, 0, 2, 2)]);
}

#[test]
fn slash_24_excludes_network_and_broadcast() {
    let hosts = expand("192.0.2.0/24").unwrap();
    assert_eq!(hosts.len(), 254);
    assert_eq!(hosts[0], ip(192, 0, 2, 1));
    assert_eq!(hosts[253], ip(192, 0, 2, 254));
    assert!(!hosts.contains(&ip(192, 0, 2, 0)));
    assert!(!hosts.contains(&ip(192, 0, 2, 255)));
    for w in hosts.windows(2) {
        assert_eq!(w[0] + 1, w[1]);
    }
}

#[test]
fn unaligned_address_uses_its_block() {
    let hosts = expand("192.0.2.5/30").unwrap();
    assert_eq!(hosts, vec![ip(192, 0, 2, 5), ip(192, 0, 2, 6)]);
}

#[test]
fn slash_31_yields_both_addresses() {
    let hosts = expand("192.0.2.7/31").unwrap();
    assert_eq!(hosts, vec![ip(192, 0, 2, 6), ip(192, 0, 2, 7)]);
}

#[test]
fn slash_32_yields_the_single_host() {
    let hosts = expand("192.0.2.9/32").unwrap();
    assert_eq!(hosts, vec![ip(192, 0, 2, 9)]);
}

#[test]
fn slash_16_count() {
    let hosts = expand("10.1.0.0/16").unwrap();
    assert_eq!(hosts.len(), 65534);
}

#[test]
fn hosts_twice_are_identical() {
    let net = NetworkRange::parse("198.51.100.0/28").unwrap();
    let first = net.hosts();
    let second = net.hosts();
    assert_eq!(first, second);
    assert_eq!(first.len(), 14);
}

#[test]
fn parse_keeps_address_and_prefix() {
    let net = NetworkRange::parse("203.0.113.77/25").unwrap();
    assert_eq!(net, NetworkRange { addr: ip(203, 0, 113, 77), prefix: 25 });
}

#[test]
fn invalid_cidr_is_reported_with_its_text() {
    for s in ["192.0.2.0/33", "nonsense", "192.0.2.0", "192.0.2/24", ""] {
        match expand(s) {
            Err(Error::InvalidCidrNotation(t)) => assert_eq!(t, s),
            other => panic!("unexpected {:?}", other),
        }
    }
}

#[test]
fn from_parsed_rejects_long_prefix() {
    let r = NetworkRange::from_parsed("x", Some((1, 33)));
    assert_eq!(r, Err(Error::InvalidCidrNotation("x".to_string())));
    let r = NetworkRange::from_parsed("y", None);
    assert_eq!(r, Err(Error::InvalidCidrNotation("y".to_string())));
    let r = NetworkRange::from_parsed("z", Some((7, 32)));
    assert_eq!(r, Ok(NetworkRange { addr: 7, prefix: 32 }));
}
