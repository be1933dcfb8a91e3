use webgateway::address::{parse_ip, parse_ipv4, parse_ipv6, parse_u16, split_on, IpAddress};

#[test]
fn ipv4_text_is_four_octets() {
    assert_eq!(parse_ipv4(b"192.168.0.1"), Some(IpAddress::V4(192, 168, 0, 1)));
    assert_eq!(parse_ipv4(b"0.0.0.0"), Some(IpAddress::V4(0, 0, 0, 0)));
    assert_eq!(parse_ipv4(b"255.255.255.255"), Some(IpAddress::V4(255, 255, 255, 255)));
}

#[test]
fn ipv4_text_is_strict() {
    for bad in [
        &b""[..], b"1.2.3", b"1.2.3.4.5", b"1.2.3.", b".1.2.3", b"1..2.3", b"256.0.0.1",
        b"01.2.3.4", b"1.2.3.04", b"1.2.3.4 ", b" 1.2.3.4", b"1.2.3.a", b"1.2.3.-4",
        b"1.2.3.1000", b"1,2,3,4",
    ] {
        assert_eq!(parse_ipv4(bad), None, "{:?}", bad);
    }
}

#[test]
fn ipv6_text_in_full() {
    assert_eq!(
        parse_ipv6(b"2001:db8:85a3:0:0:8a2e:370:7334"),
        Some(IpAddress::V6(0x2001, 0xdb8, 0x85a3, 0, 0, 0x8a2e, 0x370, 0x7334))
    );
    assert_eq!(
        parse_ipv6(b"2001:0DB8:0000:0000:0000:0000:0000:0001"),
        Some(IpAddress::V6(0x2001, 0xdb8, 0, 0, 0, 0, 0, 1))
    );
}

#[test]
fn ipv6_text_with_a_gap() {
    assert_eq!(parse_ipv6(b"::"), Some(IpAddress::V6(0, 0, 0, 0, 0, 0, 0, 0)));
    assert_eq!(parse_ipv6(b"::1"), Some(IpAddress::V6(0, 0, 0, 0, 0, 0, 0, 1)));
    assert_eq!(parse_ipv6(b"1::"), Some(IpAddress::V6(1, 0, 0, 0, 0, 0, 0, 0)));
    assert_eq!(parse_ipv6(b"fe80::1:2"), Some(IpAddress::V6(0xfe80, 0, 0, 0, 0, 0, 1, 2)));
    assert_eq!(parse_ipv6(b"1:2:3:4:5:6:7::"), Some(IpAddress::V6(1, 2, 3, 4, 5, 6, 7, 0)));
    assert_eq!(parse_ipv6(b"::2:3:4:5:6:7:8"), Some(IpAddress::V6(0, 2, 3, 4, 5, 6, 7, 8)));
}

#[test]
fn ipv6_text_with_embedded_ipv4() {
    assert_eq!(
        parse_ipv6(b"::ffff:192.168.0.1"),
        Some(IpAddress::V6(0, 0, 0, 0, 0, 0xffff, 0xc0a8, 0x0001))
    );
    assert_eq!(
        parse_ipv6(b"1:2:3:4:5:6:1.2.3.4"),
        Some(IpAddress::V6(1, 2, 3, 4, 5, 6, 0x0102, 0x0304))
    );
    assert_eq!(parse_ipv6(b"::1.2.3.4"), Some(IpAddress::V6(0, 0, 0, 0, 0, 0, 0x0102, 0x0304)));
}

#[test]
fn ipv6_text_is_strict() {
    for bad in [
        &b""[..], b":", b":::", b"1", b"1:2:3:4:5:6:7", b"1:2:3:4:5:6:7:8:9", b"1:2:3:4:5:6:7:8::",
        b"1::2::3", b"1:::2", b":1::2", b"12345::", b"g::", b"1:2:3:4:5:6:7:1.2.3.4",
        b"1.2.3.4::", b"1.2.3.4", b"::1.2.3", b"1:2:3:4:5:6:7::8", b"::1 ", b"1:2:3:4:1.2.3.4:5:6",
        b"::1.2.3.4:5",
    ] {
        assert_eq!(parse_ipv6(bad), None, "{:?}", bad);
    }
}

#[test]
fn either_family_is_read() {
    assert_eq!(parse_ip(b"10.1.2.3"), Some(IpAddress::V4(10, 1, 2, 3)));
    assert_eq!(parse_ip(b"::a"), Some(IpAddress::V6(0, 0, 0, 0, 0, 0, 0, 10)));
    assert_eq!(parse_ip(b"backend.example.com"), None);
    assert!(IpAddress::V4(10, 1, 2, 3).is_ipv4());
    assert!(IpAddress::V6(0, 0, 0, 0, 0, 0, 0, 10).is_ipv6());
    assert!(!IpAddress::V6(0, 0, 0, 0, 0, 0, 0, 10).is_ipv4());
}

#[test]
fn decimal_ports() {
    assert_eq!(parse_u16(b"0"), Some(0));
    assert_eq!(parse_u16(b"443"), Some(443));
    assert_eq!(parse_u16(b"65535"), Some(65535));
    assert_eq!(parse_u16(b"+8080"), Some(8080));
    assert_eq!(parse_u16(b"000000080"), Some(80));
    for bad in [&b""[..], b"+", b"-1", b"65536", b"99999999999999999999", b"80 ", b"8o", b"++1"] {
        assert_eq!(parse_u16(bad), None, "{:?}", bad);
    }
}

#[test]
fn splitting_keeps_empty_fields() {
    let fields = split_on(b"a,,bc,", b',');
    assert_eq!(fields, vec![&b"a"[..], b"", b"bc", b""]);
    assert_eq!(split_on(b"", b','), vec![&b""[..]]);
    assert_eq!(split_on(b"abc", b','), vec![&b"abc"[..]]);
    assert_eq!(split_on(b",", b','), vec![&b""[..], b""]);
}
