use kindle_dashboard::calendar::{AlertItem, CalendarEvent};
use kindle_dashboard::refresh::{refresh_step, Dashboard, RefreshAction, RefreshEvent, WeatherReading};

fn blank() -> Dashboard {
    Dashboard {
        time_text: String::new(),
        date_text: String::new(),
        battery_text: String::new(),
        weather_icon: String::new(),
        weather_text: String::new(),
        today_items: Vec::new(),
        today_alerts: Vec::new(),
        washer_done: false,
    }
}

fn started(token: bool) -> RefreshEvent {
    RefreshEvent::Started {
        time_text: "10:00 AM".to_string(),
        date_text: "Wednesday, May 01".to_string(),
        battery: Some("87%".to_string()),
        token_present: token,
    }
}

#[test]
fn missing_token_clears_screen() {
    let mut d = blank();
    d.today_items = vec!["Old".to_string()];
    d.today_alerts = vec![AlertItem { icon: "trash".to_string(), text: "Take out the trash!".to_string() }];
    d.washer_done = true;
    let a = refresh_step(&mut d, started(false));
    assert_eq!(a, RefreshAction::Done);
    assert_eq!(d.weather_text, "(no token)");
    assert!(d.today_items.is_empty());
    assert!(d.today_alerts.is_empty());
    assert!(!d.washer_done);
    assert_eq!(d.time_text, "10:00 AM");
    assert_eq!(d.battery_text, "87%");
}

#[test]
fn battery_kept_when_unreadable() {
    let mut d = blank();
    d.battery_text = "50%".to_string();
    let ev = RefreshEvent::Started {
        time_text: "t".to_string(),
        date_text: "d".to_string(),
        battery: None,
        token_present: true,
    };
    assert_eq!(refresh_step(&mut d, ev), RefreshAction::FetchWasher);
    assert_eq!(d.battery_text, "50%");
}

#[test]
fn washer_state_kept_on_failed_fetch() {
    let mut d = blank();
    d.washer_done = true;
    assert_eq!(refresh_step(&mut d, RefreshEvent::WasherFetched(None)), RefreshAction::Done);
    assert!(d.washer_done);
    assert_eq!(refresh_step(&mut d, RefreshEvent::WasherFetched(Some(None))), RefreshAction::Done);
    assert!(d.washer_done);
}

#[test]
fn washer_on_ends_refresh() {
    let mut d = blank();
    let a = refresh_step(&mut d, RefreshEvent::WasherFetched(Some(Some("on".to_string()))));
    assert_eq!(a, RefreshAction::Done);
    assert!(d.washer_done);
    let a = refresh_step(&mut d, RefreshEvent::WasherFetched(Some(Some("off".to_string()))));
    assert_eq!(a, RefreshAction::FetchWeather);
    assert!(!d.washer_done);
}

#[test]
fn weather_line_with_temperature() {
    let mut d = blank();
    let r = WeatherReading { condition: Some("partlycloudy".to_string()), temperature_text: Some("72".to_string()) };
    assert_eq!(refresh_step(&mut d, RefreshEvent::WeatherFetched(Some(r))), RefreshAction::FetchCalendar);
    assert_eq!(d.weather_icon, "partlycloudy");
    assert_eq!(d.weather_text, "72\u{00B0}F, Partly Cloudy");
}

#[test]
fn weather_line_without_temperature_or_state() {
    let mut d = blank();
    let r = WeatherReading { condition: None, temperature_text: None };
    refresh_step(&mut d, RefreshEvent::WeatherFetched(Some(r)));
    assert_eq!(d.weather_icon, "default");
    assert_eq!(d.weather_text, "(offline)");
    let r = WeatherReading { condition: Some("rainy".to_string()), temperature_text: None };
    refresh_step(&mut d, RefreshEvent::WeatherFetched(Some(r)));
    assert_eq!(d.weather_text, "Rainy");
}

#[test]
fn weather_fetch_failure_shows_offline() {
    let mut d = blank();
    assert_eq!(refresh_step(&mut d, RefreshEvent::WeatherFetched(None)), RefreshAction::FetchCalendar);
    assert_eq!(d.weather_icon, "default");
    assert_eq!(d.weather_text, "(offline)");
}

#[test]
fn events_fill_lists() {
    let mut d = blank();
    let events = vec![
        CalendarEvent { summary: Some("Trash".to_string()), start_date_time: None },
        CalendarEvent { summary: Some("Dentist".to_string()), start_date_time: Some("2024-05-01T15:30:00".to_string()) },
    ];
    assert_eq!(refresh_step(&mut d, RefreshEvent::EventsFetched(events)), RefreshAction::Done);
    assert_eq!(d.today_items, vec!["3:30 PM  Dentist".to_string()]);
    assert_eq!(d.today_alerts.len(), 1);
    assert_eq!(d.today_alerts[0].text, "Take out the trash!");
}

#[test]
fn full_refresh_sequence() {
    let mut d = blank();
    assert_eq!(refresh_step(&mut d, started(true)), RefreshAction::FetchWasher);
    assert_eq!(refresh_step(&mut d, RefreshEvent::WasherFetched(Some(Some("off".to_string())))), RefreshAction::FetchWeather);
    assert_eq!(refresh_step(&mut d, RefreshEvent::WeatherFetched(None)), RefreshAction::FetchCalendar);
    assert_eq!(refresh_step(&mut d, RefreshEvent::EventsFetched(Vec::new())), RefreshAction::Done);
    assert!(d.today_items.is_empty());
}
