use accesslog::digits::{parse_u16, parse_u32};
use accesslog::ip::{parse_ip, IpAddr};
use accesslog::scan::split_max;

#[test]
fn ipv4_literals() {
    assert_eq!(parse_ip(b"0.0.0.0"), Some(IpAddr::V4(0, 0, 0, 0)));
    assert_eq!(parse_ip(b"127.0.0.1"), Some(IpAddr::V4(127, 0, 0, 1)));
    assert_eq!(parse_ip(b"255.255.255.255"), Some(IpAddr::V4(255, 255, 255, 255)));
}

#[test]
fn bad_ipv4_literals() {
    assert_eq!(parse_ip(b""), None);
    assert_eq!(parse_ip(b"1.2.3"), None);
    assert_eq!(parse_ip(b"1.2.3.4.5"), None);
    assert_eq!(parse_ip(b"1.2.3.256"), None);
    assert_eq!(parse_ip(b"01.2.3.4"), None);
    assert_eq!(parse_ip(b"1.2.3."), None);
    assert_eq!(parse_ip(b"1.2.3.+4"), None);
    assert_eq!(parse_ip(b"1.2.3.x"), None);
}

#[test]
fn ipv6_literals() {
    assert_eq!(parse_ip(b"::"), Some(IpAddr::V6(0, 0, 0, 0, 0, 0, 0, 0)));
    assert_eq!(parse_ip(b"::1"), Some(IpAddr::V6(0, 0, 0, 0, 0, 0, 0, 1)));
    assert_eq!(parse_ip(b"1::"), Some(IpAddr::V6(1, 0, 0, 0, 0, 0, 0, 0)));
    assert_eq!(
        parse_ip(b"2001:db8::ff00:42:8329"),
        Some(IpAddr::V6(0x2001, 0x0db8, 0, 0, 0, 0xff00, 0x0042, 0x8329))
    );
    assert_eq!(
        parse_ip(b"1:2:3:4:5:6:7:8"),
        Some(IpAddr::V6(1, 2, 3, 4, 5, 6, 7, 8))
    );
    assert_eq!(
        parse_ip(b"fe80::ABCD:ef01"),
        Some(IpAddr::V6(0xfe80, 0, 0, 0, 0, 0, 0xabcd, 0xef01))
    );
}

#[test]
fn ipv6_with_embedded_ipv4() {
    assert_eq!(
        parse_ip(b"::ffff:192.0.2.128"),
        Some(IpAddr::V6(0, 0, 0, 0, 0, 0xffff, 0xc000, 0x0280))
    );
    assert_eq!(
        parse_ip(b"1:2:3:4:5:6:192.0.2.128"),
        Some(IpAddr::V6(1, 2, 3, 4, 5, 6, 0xc000, 0x0280))
    );
}

#[test]
fn bad_ipv6_literals() {
    assert_eq!(parse_ip(b":"), None);
    assert_eq!(parse_ip(b":::"), None);
    assert_eq!(parse_ip(b"1:2:3:4:5:6:7"), None);
    assert_eq!(parse_ip(b"1:2:3:4:5:6:7:8:9"), None);
    assert_eq!(parse_ip(b"1:2:3:4:5:6:7:8::"), None);
    assert_eq!(parse_ip(b"1::2::3"), None);
    assert_eq!(parse_ip(b"12345::"), None);
    assert_eq!(parse_ip(b"g::1"), None);
    assert_eq!(parse_ip(b"1:2"), None);
}

#[test]
fn double_colon_elides_at_least_one_group() {
    assert_eq!(
        parse_ip(b"1:2:3:4:5:6:7::"),
        Some(IpAddr::V6(1, 2, 3, 4, 5, 6, 7, 0))
    );
    assert_eq!(
        parse_ip(b"::1:2:3:4:5:6:7"),
        Some(IpAddr::V6(0, 1, 2, 3, 4, 5, 6, 7))
    );
}

#[test]
fn decimal_fields_accept_plus_and_leading_zeros() {
    assert_eq!(parse_u16(b"007"), Some(7));
    assert_eq!(parse_u16(b"+80"), Some(80));
    assert_eq!(parse_u16(b"65535"), Some(65535));
    assert_eq!(parse_u16(b"65536"), None);
    assert_eq!(parse_u16(b""), None);
    assert_eq!(parse_u16(b"+"), None);
    assert_eq!(parse_u16(b"1 2"), None);
    assert_eq!(parse_u32(b"4294967295"), Some(4294967295));
    assert_eq!(parse_u32(b"4294967296"), None);
    assert_eq!(parse_u32(b"123456789012345678901234567890"), None);
}

#[test]
fn split_max_caps_the_window() {
    let s = b"abcdefgh";
    assert_eq!(split_max(s, 3), b"abc");
    assert_eq!(split_max(s, 8), &s[..]);
    assert_eq!(split_max(s, 100), &s[..]);
    assert_eq!(split_max(s, 0), b"");
}
