use kindle_dashboard::calendar::{
    alert_keywords, calendar_url, format_event_text, match_alert, match_alert_lowered, today_lists,
    CalendarEvent,
};
use kindle_dashboard::date::{next_day, next_day_in_range};

fn timed(summary: &str, start: &str) -> CalendarEvent {
    CalendarEvent { summary: Some(summary.to_string()), start_date_time: Some(start.to_string()) }
}

fn all_day(summary: &str) -> CalendarEvent {
    CalendarEvent { summary: Some(summary.to_string()), start_date_time: None }
}

#[test]
fn next_day_within_month() {
    assert_eq!(next_day("2024-05-01"), "2024-05-02");
}

#[test]
fn next_day_month_end() {
    assert_eq!(next_day("2024-01-31"), "2024-02-01");
    assert_eq!(next_day("2024-04-30"), "2024-05-01");
}

#[test]
fn next_day_leap_years() {
    assert_eq!(next_day("2024-02-28"), "2024-02-29");
    assert_eq!(next_day("2024-02-29"), "2024-03-01");
    assert_eq!(next_day("2023-02-28"), "2023-03-01");
    assert_eq!(next_day("1900-02-28"), "1900-03-01");
    assert_eq!(next_day("2000-02-28"), "2000-02-29");
}

#[test]
fn next_day_year_end() {
    assert_eq!(next_day("2024-12-31"), "2025-01-01");
}

#[test]
fn next_day_pads_fields() {
    assert_eq!(next_day("2024-1-5"), "2024-01-06");
    assert_eq!(next_day("5-6-7"), "0005-06-08");
    assert_eq!(next_day("+2024-01-01"), "2024-01-02");
}

#[test]
fn next_day_out_of_range_month_counts_thirty_days() {
    assert_eq!(next_day("2024-13-30"), "2025-01-01");
    assert_eq!(next_day("2024-00-29"), "2024-00-30");
}

#[test]
fn next_day_leaves_other_text_alone() {
    assert_eq!(next_day("garbage"), "garbage");
    assert_eq!(next_day("2024-05"), "2024-05");
    assert_eq!(next_day("2024-05-01-07"), "2024-05-01-07");
    assert_eq!(next_day(""), "");
}

#[test]
fn next_day_skips_unparsable_pieces() {
    assert_eq!(next_day("x-2024-x-05-x-01"), "2024-05-02");
}

#[test]
fn next_day_range_check() {
    assert!(next_day_in_range("2024-05-01"));
    assert!(next_day_in_range("nonsense"));
    assert!(!next_day_in_range("2024-05-2147483647"));
    assert!(!next_day_in_range("2147483647-12-31"));
    assert!(next_day_in_range("2147483647-12-30"));
}

#[test]
fn calendar_url_spans_the_local_day() {
    assert_eq!(
        calendar_url("http://ha:8123", "2024-12-31", "-05:00"),
        "http://ha:8123/api/calendars/calendar.household?start=2024-12-31T00:00:00-05:00&end=2025-01-01T00:00:00-05:00"
    );
}

#[test]
fn format_timed_event() {
    assert_eq!(
        format_event_text(&timed("Dentist", "2024-05-01T15:30:00-04:00")),
        Some("3:30 PM  Dentist".to_string())
    );
}

#[test]
fn format_midnight_and_noon() {
    assert_eq!(
        format_event_text(&timed("Late", "2024-05-01T00:05:00+00:00")),
        Some("12:05 AM  Late".to_string())
    );
    assert_eq!(
        format_event_text(&timed("Lunch", "2024-05-01T12:00:00+00:00")),
        Some("12:00 PM  Lunch".to_string())
    );
    assert_eq!(
        format_event_text(&timed("Breakfast", "2024-05-01T09:15:00+00:00")),
        Some("9:15 AM  Breakfast".to_string())
    );
}

#[test]
fn format_all_day_event_is_summary() {
    assert_eq!(format_event_text(&all_day("Holiday")), Some("Holiday".to_string()));
}

#[test]
fn format_without_summary_is_nothing() {
    let e = CalendarEvent { summary: None, start_date_time: Some("2024-05-01T15:30:00".to_string()) };
    assert_eq!(format_event_text(&e), None);
}

#[test]
fn format_unreadable_time_is_nothing() {
    assert_eq!(format_event_text(&timed("Short", "2024-05-01")), None);
    assert_eq!(format_event_text(&timed("NoColon", "2024-05-01T15-30:00")), None);
    assert_eq!(format_event_text(&timed("BadHour", "2024-05-01Txx:30:00")), None);
}

#[test]
fn format_respects_byte_offsets() {
    // A two-byte character before the time shifts the byte offsets: bytes 11..16
    // then start inside the character, which is no char boundary.
    assert_eq!(format_event_text(&timed("Odd", "2024-05-\u{e9}1T15:30:00")), None);
}

#[test]
fn alert_table_rows() {
    let t = alert_keywords();
    assert_eq!(t.len(), 3);
    assert_eq!(t[0], ("trash", "trash", "Take out the trash!"));
    assert_eq!(t[2], ("leaves", "leaves", "Take out the leaves!"));
}

#[test]
fn match_alert_is_case_insensitive() {
    assert_eq!(match_alert("TRASH pickup"), Some(("trash", "Take out the trash!")));
    assert_eq!(match_alert("Recycling day"), Some(("recycling", "Take out the recycling!")));
    assert_eq!(match_alert("Leaves"), Some(("leaves", "Take out the leaves!")));
    assert_eq!(match_alert("Dentist"), None);
}

#[test]
fn match_alert_takes_first_row() {
    assert_eq!(match_alert("leaves and trash"), Some(("trash", "Take out the trash!")));
    assert_eq!(match_alert_lowered("recycling trash"), Some(("trash", "Take out the trash!")));
    assert_eq!(match_alert_lowered("TRASH"), None);
}

#[test]
fn alerts_only_from_all_day_events() {
    let events = vec![timed("Flight leaves 6am", "2024-05-01T06:00:00-04:00"), all_day("Leaves")];
    let (items, alerts) = today_lists(&events);
    assert_eq!(items, vec!["6:00 AM  Flight leaves 6am".to_string()]);
    assert_eq!(alerts.len(), 1);
    assert_eq!(alerts[0].icon, "leaves");
    assert_eq!(alerts[0].text, "Take out the leaves!");
}

#[test]
fn duplicate_alerts_shown_once() {
    let events = vec![all_day("Trash"), all_day("trash (bulk)"), all_day("Recycling")];
    let (items, alerts) = today_lists(&events);
    assert!(items.is_empty());
    assert_eq!(alerts.len(), 2);
    assert_eq!(alerts[0].icon, "trash");
    assert_eq!(alerts[1].icon, "recycling");
}

#[test]
fn plain_list_uncapped_without_alerts() {
    let events: Vec<CalendarEvent> = (0..12).map(|i| all_day(&format!("Item {i}"))).collect();
    let (items, alerts) = today_lists(&events);
    assert!(alerts.is_empty());
    assert_eq!(items.len(), 12);
}

#[test]
fn plain_list_capped_with_alerts() {
    let mut events: Vec<CalendarEvent> = (0..10).map(|i| all_day(&format!("Item {i}"))).collect();
    events.push(all_day("Trash"));
    let (items, alerts) = today_lists(&events);
    assert_eq!(alerts.len(), 1);
    assert_eq!(items.len(), 9);
    assert_eq!(items[7], "Item 7");
    assert_eq!(items[8], "+2 more");

    events.push(all_day("Recycling"));
    let (items, _) = today_lists(&events);
    assert_eq!(items.len(), 6);
    assert_eq!(items[5], "+5 more");

    events.push(all_day("Leaves"));
    let (items, alerts) = today_lists(&events);
    assert_eq!(alerts.len(), 3);
    assert_eq!(items, vec!["Item 0".to_string(), "Item 1".to_string(), "+8 more".to_string()]);
}

#[test]
fn event_without_summary_is_dropped() {
    let events = vec![CalendarEvent { summary: None, start_date_time: None }];
    let (items, alerts) = today_lists(&events);
    assert!(items.is_empty());
    assert!(alerts.is_empty());
}

fn step_days(start: &str, n: usize) -> String {
    let mut d = start.to_string();
    for _ in 0..n {
        d = next_day(&d);
    }
    d
}

#[test]
fn next_day_through_whole_years() {
    assert_eq!(step_days("2023-01-01", 365), "2024-01-01");
    assert_eq!(step_days("2024-01-01", 366), "2025-01-01");
    assert_eq!(step_days("2024-01-01", 365), "2024-12-31");
    assert_eq!(step_days("1900-01-01", 365), "1901-01-01");
}
