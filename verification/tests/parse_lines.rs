use accesslog::ip::IpAddr;
use accesslog::record::LogMessage;

fn valid_line() -> String {
    let mut s = String::new();
    s.push_str("<134>haproxy[123]: ");
    s.push_str("192.168.0.1 8080 10.0.0.5 ");
    s.push_str("[07/Dec/2023:18:08:04.789] ");
    s.push_str("GET /p?a=1&b=2 HTTP/1.1 200 1234 [ref|ua]\n");
    s
}

#[test]
fn parses_full_line() {
    let line = valid_line();
    assert!(line.len() >= 100);
    let r = LogMessage::try_parse(line.as_bytes()).unwrap();
    assert_eq!(r.server_ip, IpAddr::V4(192, 168, 0, 1));
    assert_eq!(r.server_port, 8080);
    assert_eq!(r.user_ip, IpAddr::V4(10, 0, 0, 5));
    assert_eq!(r.date_time.day, 7);
    assert_eq!(r.date_time.month, 12);
    assert_eq!(r.date_time.year, 2023);
    assert_eq!(r.date_time.hour, 18);
    assert_eq!(r.date_time.minute, 8);
    assert_eq!(r.date_time.second, 4);
    assert_eq!(r.date_time.millisecond, 789);
    assert_eq!(r.http_method, b"GET");
    assert_eq!(r.path, b"/p");
    assert_eq!(r.version, b"HTTP/1.1");
    assert_eq!(r.status_code, 200);
    assert_eq!(r.response_length, 1234);
    assert_eq!(r.referer, Some(&b"ref"[..]));
    assert_eq!(r.user_agent, Some(&b"ua"[..]));
}

#[test]
fn short_line_fails() {
    let line = "<134>haproxy[123]: 192.168.0.1 8080 10.0.0.5";
    assert!(line.len() < 100);
    assert!(LogMessage::try_parse(line.as_bytes()).is_none());
}

#[test]
fn line_of_99_bytes_fails_even_when_otherwise_valid() {
    // Same shape as a valid line, trimmed to 99 bytes by a shorter referer.
    let mut s = String::new();
    s.push_str("<134>ha[1]: ");
    s.push_str("192.168.0.1 8080 10.0.0.5 ");
    s.push_str("[07/Dec/2023:18:08:04.789] ");
    s.push_str("GET /p HTTP/1.1 200 1234 [|]\n");
    while s.len() > 99 {
        s.pop();
    }
    assert!(LogMessage::try_parse(s.as_bytes()).is_none());
}

#[test]
fn missing_marker_fails() {
    let mut s = String::new();
    s.push_str("<134>haproxy(123)- ");
    s.push_str("192.168.0.1 8080 10.0.0.5 ");
    s.push_str("[07/Dec/2023:18:08:04.789] ");
    s.push_str("GET /p?a=1&b=2 HTTP/1.1 200 1234 [ref|ua]\n");
    assert!(s.len() >= 100);
    assert!(LogMessage::try_parse(s.as_bytes()).is_none());
}

#[test]
fn marker_beyond_window_fails() {
    let mut s = String::new();
    // The marker appears only after the first 45 bytes.
    s.push_str("<134>aaaaaaaaaaaaaaaaaaaaaaaaaaaaaaaaaaaaaaaaaaaaaaaa[1]: ");
    s.push_str("192.168.0.1 8080 10.0.0.5 ");
    s.push_str("[07/Dec/2023:18:08:04.789] ");
    s.push_str("GET /p HTTP/1.1 200 1234 [ref|ua]\n");
    assert!(s.len() >= 100);
    assert!(LogMessage::try_parse(s.as_bytes()).is_none());
}

#[test]
fn placeholders_give_loopback_and_port_zero() {
    let mut s = String::new();
    s.push_str("<134>haproxy[123]: ");
    s.push_str("- - 10.0.0.5 ");
    s.push_str("[07/Dec/2023:18:08:04.789] ");
    s.push_str("GET /some/longer/path/to/pad?a=1&b=2 HTTP/1.1 200 1234 [ref|ua]\n");
    assert!(s.len() >= 100);
    let r = LogMessage::try_parse(s.as_bytes()).unwrap();
    assert_eq!(r.server_ip, IpAddr::V4(127, 0, 0, 1));
    assert_eq!(r.server_port, 0);
    assert_eq!(r.user_ip, IpAddr::V4(10, 0, 0, 5));
}

#[test]
fn empty_meta_segment_gives_both_absent() {
    let mut s = String::new();
    s.push_str("<134>haproxy[123]: ");
    s.push_str("192.168.0.1 8080 10.0.0.5 ");
    s.push_str("[07/Dec/2023:18:08:04.789] ");
    s.push_str("GET /p/padding/padding/pad HTTP/1.1 200 1234 []\n");
    assert!(s.len() >= 100);
    let r = LogMessage::try_parse(s.as_bytes()).unwrap();
    assert_eq!(r.referer, None);
    assert_eq!(r.user_agent, None);
}

#[test]
fn meta_with_empty_user_agent() {
    let mut s = String::new();
    s.push_str("<134>haproxy[123]: ");
    s.push_str("192.168.0.1 8080 10.0.0.5 ");
    s.push_str("[07/Dec/2023:18:08:04.789] ");
    s.push_str("GET /p/padding/padding HTTP/1.1 200 1234 [ref|]\n");
    assert!(s.len() >= 100);
    let r = LogMessage::try_parse(s.as_bytes()).unwrap();
    assert_eq!(r.referer, Some(&b"ref"[..]));
    assert_eq!(r.user_agent, None);
}

#[test]
fn meta_with_empty_referer() {
    let mut s = String::new();
    s.push_str("<134>haproxy[123]: ");
    s.push_str("192.168.0.1 8080 10.0.0.5 ");
    s.push_str("[07/Dec/2023:18:08:04.789] ");
    s.push_str("GET /p/padding/padding/ HTTP/1.1 200 1234 [|ua]\n");
    assert!(s.len() >= 100);
    let r = LogMessage::try_parse(s.as_bytes()).unwrap();
    assert_eq!(r.referer, None);
    assert_eq!(r.user_agent, Some(&b"ua"[..]));
}

#[test]
fn meta_without_separator_fails() {
    let mut s = String::new();
    s.push_str("<134>haproxy[123]: ");
    s.push_str("192.168.0.1 8080 10.0.0.5 ");
    s.push_str("[07/Dec/2023:18:08:04.789] ");
    s.push_str("GET /p/padding/padding HTTP/1.1 200 1234 [refua]\n");
    assert!(s.len() >= 100);
    assert!(LogMessage::try_parse(s.as_bytes()).is_none());
}

#[test]
fn path_without_query_is_whole_token() {
    let mut s = String::new();
    s.push_str("<134>haproxy[123]: ");
    s.push_str("192.168.0.1 8080 10.0.0.5 ");
    s.push_str("[07/Dec/2023:18:08:04.789] ");
    s.push_str("POST /a/b/c/padding/pad HTTP/1.0 404 0 [ref|ua]\n");
    assert!(s.len() >= 100);
    let r = LogMessage::try_parse(s.as_bytes()).unwrap();
    assert_eq!(r.http_method, b"POST");
    assert_eq!(r.path, b"/a/b/c/padding/pad");
    assert_eq!(r.version, b"HTTP/1.0");
    assert_eq!(r.status_code, 404);
    assert_eq!(r.response_length, 0);
}

#[test]
fn query_is_discarded_from_every_field() {
    let line = valid_line();
    let r = LogMessage::try_parse(line.as_bytes()).unwrap();
    assert_eq!(r.path, b"/p");
    assert!(r.referer != Some(&b"a=1&b=2"[..]));
    assert!(!r.version.windows(3).any(|w| w == b"a=1"));
}

#[test]
fn status_code_over_16_bits_fails() {
    let mut s = String::new();
    s.push_str("<134>haproxy[123]: ");
    s.push_str("192.168.0.1 8080 10.0.0.5 ");
    s.push_str("[07/Dec/2023:18:08:04.789] ");
    s.push_str("GET /p/padding/padding/pad HTTP/1.1 70000 1234 [ref|ua]\n");
    assert!(s.len() >= 100);
    // A five-digit status has no terminator inside the 4-byte window.
    assert!(LogMessage::try_parse(s.as_bytes()).is_none());
}

#[test]
fn non_numeric_status_fails() {
    let mut s = String::new();
    s.push_str("<134>haproxy[123]: ");
    s.push_str("192.168.0.1 8080 10.0.0.5 ");
    s.push_str("[07/Dec/2023:18:08:04.789] ");
    s.push_str("GET /p/padding/padding/pad HTTP/1.1 2x0 1234 [ref|ua]\n");
    assert!(s.len() >= 100);
    assert!(LogMessage::try_parse(s.as_bytes()).is_none());
}

#[test]
fn invalid_client_address_fails() {
    let mut s = String::new();
    s.push_str("<134>haproxy[123]: ");
    s.push_str("192.168.0.1 8080 10.0.0.256 ");
    s.push_str("[07/Dec/2023:18:08:04.789] ");
    s.push_str("GET /p?a=1&b=2 HTTP/1.1 200 1234 [ref|ua]\n");
    assert!(s.len() >= 100);
    assert!(LogMessage::try_parse(s.as_bytes()).is_none());
}

#[test]
fn ipv6_client_address_parses() {
    let mut s = String::new();
    s.push_str("<134>haproxy[123]: ");
    s.push_str("192.168.0.1 8080 2001:db8::ff00:42:8329 ");
    s.push_str("[07/Dec/2023:18:08:04.789] ");
    s.push_str("GET /p?a=1&b=2 HTTP/1.1 200 1234 [ref|ua]\n");
    assert!(s.len() >= 100);
    let r = LogMessage::try_parse(s.as_bytes()).unwrap();
    assert_eq!(
        r.user_ip,
        IpAddr::V6(0x2001, 0x0db8, 0, 0, 0, 0xff00, 0x0042, 0x8329)
    );
}

#[test]
fn huge_tail_without_delimiter_fails() {
    // A field with no terminator inside its window fails however much
    // unscanned input remains behind it.
    let mut s = String::new();
    s.push_str("<134>haproxy[123]: ");
    for _ in 0..1_000_000 {
        s.push('x');
    }
    assert!(s.len() >= 100);
    assert!(LogMessage::try_parse(s.as_bytes()).is_none());
}
