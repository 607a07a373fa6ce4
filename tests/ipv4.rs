use pocket_relay_qos::ipv4::parse_ipv4;

fn parse(s: &str) -> Option<u32> {
    parse_ipv4(&s.as_bytes().to_vec())
}

#[test]
fn parses_dotted_decimal() {
    assert_eq!(parse("1.2.3.4"), Some(0x0102_0304));
    assert_eq!(parse("203.0.113.7"), Some(0xcb00_7107));
    assert_eq!(parse("255.255.255.255"), Some(u32::MAX));
    assert_eq!(parse("0.0.0.0"), Some(0));
    assert_eq!(parse("10.100.0.99"), Some(0x0a64_0063));
}

#[test]
fn edge_forms() {
    assert_eq!(parse("1..2.3"), None);
    assert_eq!(parse("a.b.c.d"), None);
    assert_eq!(parse("1.2.3.4 "), None);
    assert_eq!(parse(" 1.2.3.4"), None);
    assert_eq!(parse("1.2.3.-4"), None);
    assert_eq!(parse("1.2.3.1000"), None);
    assert_eq!(parse("192.168.001.1"), None);
    assert_eq!(parse("9.99.199.255"), Some(0x0963_c7ff));
}

#[test]
fn rejects_malformed_text() {
    assert_eq!(parse("01.2.3.4"), None);
    assert_eq!(parse("256.1.1.1"), None);
    assert_eq!(parse("1.2.3"), None);
    assert_eq!(parse("1.2.3.4.5"), None);
    assert_eq!(parse(""), None);
    assert_eq!(parse("1.2.3.4\n"), None);
}
