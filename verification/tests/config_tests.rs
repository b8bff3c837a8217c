use kindle_dashboard::config::{
    battery_text, bearer_header, clock_text, ha_url_from_file, log_should_truncate, parse_now_snapshot,
    snapshot_parsable, state_url, token_from_file,
};

#[test]
fn log_truncates_only_past_limit() {
    assert!(!log_should_truncate(None));
    assert!(!log_should_truncate(Some(0)));
    assert!(!log_should_truncate(Some(524288)));
    assert!(log_should_truncate(Some(524289)));
}

#[test]
fn clock_text_trims_or_unknown() {
    assert_eq!(clock_text(Some("10:05 AM\n")), "10:05 AM");
    assert_eq!(clock_text(Some(" \t")), "");
    assert_eq!(clock_text(None), "?");
}

#[test]
fn token_trimmed_and_required() {
    assert_eq!(token_from_file(Some("abc123\n")), Some("abc123".to_string()));
    assert_eq!(token_from_file(Some("  \n")), None);
    assert_eq!(token_from_file(None), None);
}

#[test]
fn ha_url_defaults() {
    assert_eq!(ha_url_from_file(Some("http://10.0.0.5:8123\n")), "http://10.0.0.5:8123");
    assert_eq!(ha_url_from_file(Some("")), "http://homeassistant.local:8123");
    assert_eq!(ha_url_from_file(None), "http://homeassistant.local:8123");
}

#[test]
fn battery_percent_text() {
    assert_eq!(battery_text(Some("87\n")), Some("87%".to_string()));
    assert_eq!(battery_text(Some("\n")), None);
    assert_eq!(battery_text(None), None);
}

#[test]
fn request_texts() {
    assert_eq!(state_url("http://ha:8123", "weather.home"), "http://ha:8123/api/states/weather.home");
    assert_eq!(bearer_header("tok"), "Bearer tok");
}

#[test]
fn snapshot_of_date_output() {
    let raw = "2024-05-01 10:05:09|10:05 AM|Wednesday, May 01|-0400\n";
    assert!(snapshot_parsable(raw));
    let s = parse_now_snapshot(raw);
    assert_eq!(s.log_ts, "2024-05-01 10:05:09");
    assert_eq!(s.time_text, "10:05 AM");
    assert_eq!(s.date_text, "Wednesday, May 01");
    assert_eq!(s.iso_date, "2024-05-01");
    assert_eq!(s.utc_offset, "-04:00");
    assert!(!s.offset_fell_back);
}

#[test]
fn snapshot_falls_back_on_odd_offset() {
    let s = parse_now_snapshot("2024-05-01 10:05:09|10:05 AM|Wed|UTC");
    assert_eq!(s.utc_offset, "+00:00");
    assert_eq!(s.raw_offset, "UTC");
    assert!(s.offset_fell_back);
}

#[test]
fn snapshot_of_missing_output() {
    let s = parse_now_snapshot("");
    assert_eq!(s.log_ts, "");
    assert_eq!(s.time_text, "?");
    assert_eq!(s.date_text, "?");
    assert_eq!(s.iso_date, "");
    assert_eq!(s.utc_offset, "+00:00");
}

#[test]
fn snapshot_offset_split_needs_char_boundary() {
    assert!(!snapshot_parsable("a|b|c|ab\u{20ac}"));
    assert!(snapshot_parsable("a|b|c|a\u{e9}bc"));
    assert_eq!(parse_now_snapshot("a|b|c|a\u{e9}bc").utc_offset, "a\u{e9}:bc");
}
