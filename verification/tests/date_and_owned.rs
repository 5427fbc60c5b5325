use accesslog::date::{parse_date_split, DateTime};
use accesslog::ip::IpAddr;
use accesslog::record::{LogMessage, OwnedLogMessage};

#[test]
fn date_literal_splits_into_components() {
    let parts = parse_date_split(b"07/Dec/2023:18:08:04.789").unwrap();
    assert_eq!(parts, [7, 12, 2023, 18, 8, 4, 789]);
}

#[test]
fn invalid_month_abbreviation_fails() {
    assert!(parse_date_split(b"07/Xxx/2023:18:08:04.789").is_none());
}

#[test]
fn lowercase_month_abbreviation_fails() {
    assert!(parse_date_split(b"07/dec/2023:18:08:04.789").is_none());
}

#[test]
fn short_date_fails_structurally() {
    assert!(parse_date_split(b"07/Dec").is_none());
    assert!(parse_date_split(b"").is_none());
    assert!(parse_date_split(b"07/Dec/2023:18:08").is_none());
}

#[test]
fn day_32_fails_calendar_validation() {
    // Structural split succeeds; the calendar constructor rejects it.
    let parts = parse_date_split(b"32/Dec/2023:18:08:04.789").unwrap();
    assert_eq!(parts[0], 32);
    assert!(DateTime::new(parts[2], parts[1], parts[0], parts[3], parts[4], parts[5], parts[6])
        .is_none());

    let mut s = String::new();
    s.push_str("<134>haproxy[123]: ");
    s.push_str("192.168.0.1 8080 10.0.0.5 ");
    s.push_str("[32/Dec/2023:18:08:04.789] ");
    s.push_str("GET /p?a=1&b=2 HTTP/1.1 200 1234 [ref|ua]\n");
    assert!(s.len() >= 100);
    assert!(LogMessage::try_parse(s.as_bytes()).is_none());
}

#[test]
fn hour_25_fails_calendar_validation() {
    let mut s = String::new();
    s.push_str("<134>haproxy[123]: ");
    s.push_str("192.168.0.1 8080 10.0.0.5 ");
    s.push_str("[07/Dec/2023:25:08:04.789] ");
    s.push_str("GET /p?a=1&b=2 HTTP/1.1 200 1234 [ref|ua]\n");
    assert!(s.len() >= 100);
    assert!(LogMessage::try_parse(s.as_bytes()).is_none());
}

#[test]
fn leap_day_parses_only_in_leap_years() {
    assert!(DateTime::new(2024, 2, 29, 0, 0, 0, 0).is_some());
    assert!(DateTime::new(2023, 2, 29, 0, 0, 0, 0).is_none());
    assert!(DateTime::new(1900, 2, 29, 0, 0, 0, 0).is_none());
    assert!(DateTime::new(2000, 2, 29, 0, 0, 0, 0).is_some());
}

#[test]
fn millisecond_1000_fails_validation() {
    assert!(DateTime::new(2023, 12, 7, 18, 8, 4, 999).is_some());
    assert!(DateTime::new(2023, 12, 7, 18, 8, 4, 1000).is_none());
}

fn parse_then_own(line: String) -> OwnedLogMessage {
    let r = LogMessage::try_parse(line.as_bytes()).unwrap();
    let owned = r.to_owned();
    // The borrowed record's fields agree with the copy, field by field.
    assert_eq!(owned.server_ip, r.server_ip);
    assert_eq!(owned.server_port, r.server_port);
    assert_eq!(owned.user_ip, r.user_ip);
    assert_eq!(owned.date_time, r.date_time);
    assert_eq!(owned.http_method.as_slice(), r.http_method);
    assert_eq!(owned.path.as_slice(), r.path);
    assert_eq!(owned.version.as_slice(), r.version);
    assert_eq!(owned.status_code, r.status_code);
    assert_eq!(owned.response_length, r.response_length);
    assert_eq!(owned.referer.as_deref(), r.referer);
    assert_eq!(owned.user_agent.as_deref(), r.user_agent);
    owned
    // `line` is dropped here; only the owned record survives.
}

#[test]
fn owned_record_survives_the_buffer() {
    let mut s = String::new();
    s.push_str("<134>haproxy[123]: ");
    s.push_str("192.168.0.1 8080 10.0.0.5 ");
    s.push_str("[07/Dec/2023:18:08:04.789] ");
    s.push_str("GET /p?a=1&b=2 HTTP/1.1 200 1234 [ref|ua]\n");
    let owned = parse_then_own(s);
    assert_eq!(owned.server_ip, IpAddr::V4(192, 168, 0, 1));
    assert_eq!(owned.server_port, 8080);
    assert_eq!(owned.user_ip, IpAddr::V4(10, 0, 0, 5));
    assert_eq!(owned.date_time.year, 2023);
    assert_eq!(owned.http_method, b"GET".to_vec());
    assert_eq!(owned.path, b"/p".to_vec());
    assert_eq!(owned.version, b"HTTP/1.1".to_vec());
    assert_eq!(owned.status_code, 200);
    assert_eq!(owned.response_length, 1234);
    assert_eq!(owned.referer, Some(b"ref".to_vec()));
    assert_eq!(owned.user_agent, Some(b"ua".to_vec()));
}
