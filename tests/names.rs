use ptrscan::error::Error;
use ptrscan::resolver::{
    build_resolver_config, parse_ipv4, parse_octet, parse_resolver_list,
    resolver_config_from_string, ResolverConfig,
};
use ptrscan::text::{split, strip_one_trailing_dot};

#[test]
fn strip_removes_one_trailing_dot() {
    assert_eq!(strip_one_trailing_dot("example.com."), "example.com");
    assert_eq!(strip_one_trailing_dot("example.com"), "example.com");
    assert_eq!(strip_one_trailing_dot("example.com.."), "example.com.");
    assert_eq!(strip_one_trailing_dot("."), "");
    assert_eq!(strip_one_trailing_dot(""), "");
}

#[test]
fn split_keeps_empty_pieces() {
    assert_eq!(split("a,b", ','), vec!["a", "b"]);
    assert_eq!(split("", ','), vec![""]);
    assert_eq!(split(",x,", ','), vec!["", "x", ""]);
}

#[test]
fn octets() {
    assert_eq!(parse_octet("0"), Some(0));
    assert_eq!(parse_octet("255"), Some(255));
    assert_eq!(parse_octet("256"), None);
    assert_eq!(parse_octet("01"), None);
    assert_eq!(parse_octet("1a"), None);
    assert_eq!(parse_octet(""), None);
    assert_eq!(parse_octet("1000"), None);
}

#[test]
fn ipv4_addresses() {
    assert_eq!(parse_ipv4("198.51.100.1"), Some(0xC633_6401));
    assert_eq!(parse_ipv4("0.0.0.0"), Some(0));
    assert_eq!(parse_ipv4("255.255.255.255"), Some(u32::MAX));
    assert_eq!(parse_ipv4("1.2.3"), None);
    assert_eq!(parse_ipv4("1.2.3.4.5"), None);
    assert_eq!(parse_ipv4("1.2.3.256"), None);
    assert_eq!(parse_ipv4(" 1.2.3.4"), None);
    assert_eq!(parse_ipv4("not-an-ip"), None);
}

#[test]
fn resolver_list_in_order() {
    let r = parse_resolver_list("198.51.100.1,198.51.100.2").unwrap();
    assert_eq!(r, vec![0xC633_6401, 0xC633_6402]);
}

#[test]
fn resolver_list_names_bad_segment() {
    let r = parse_resolver_list("198.51.100.1,not-an-ip");
    assert_eq!(r, Err(Error::InvalidResolverAddress("not-an-ip".to_string())));
    let r = parse_resolver_list("x,y");
    assert_eq!(r, Err(Error::InvalidResolverAddress("x".to_string())));
}

#[test]
fn empty_resolver_list_is_rejected() {
    let r = parse_resolver_list("");
    assert_eq!(r, Err(Error::InvalidResolverAddress(String::new())));
}

#[test]
fn resolver_config_default_and_custom() {
    assert!(matches!(build_resolver_config(None), Ok(ResolverConfig::Default)));
    match build_resolver_config(Some("198.51.100.1,198.51.100.2")) {
        Ok(ResolverConfig::Custom(v)) => assert_eq!(v, vec![0xC633_6401, 0xC633_6402]),
        other => panic!("unexpected {:?}", other),
    }
    match build_resolver_config(Some("198.51.100.1,not-an-ip")) {
        Err(Error::InvalidResolverAddress(s)) => assert_eq!(s, "not-an-ip"),
        other => panic!("unexpected {:?}", other),
    }
}

#[test]
fn resolver_config_from_list() {
    match resolver_config_from_string("198.51.100.1,198.51.100.2") {
        Ok(ResolverConfig::Custom(v)) => assert_eq!(v, vec![0xC633_6401, 0xC633_6402]),
        other => panic!("unexpected {:?}", other),
    }
    assert_eq!(
        resolver_config_from_string("198.51.100.1,not-an-ip").unwrap_err(),
        Error::InvalidResolverAddress("not-an-ip".to_string())
    );
}
