use std::borrow::Cow;

use kindle_dashboard::weather::{display_name_for, icon_key_for};

#[test]
fn icon_keys_for_known_conditions() {
    assert_eq!(icon_key_for("sunny"), "sunny");
    assert_eq!(icon_key_for("clear-night"), "clear-night");
    assert_eq!(icon_key_for("partlycloudy"), "partlycloudy");
    assert_eq!(icon_key_for("cloudy"), "cloudy");
    assert_eq!(icon_key_for("rainy"), "rainy");
    assert_eq!(icon_key_for("pouring"), "pouring");
    assert_eq!(icon_key_for("hail"), "hail");
}

#[test]
fn icon_keys_shared_between_conditions() {
    assert_eq!(icon_key_for("lightning"), "lightning");
    assert_eq!(icon_key_for("lightning-rainy"), "lightning");
    assert_eq!(icon_key_for("snowy-rainy"), "snowy");
    assert_eq!(icon_key_for("exceptional"), "fog");
    assert_eq!(icon_key_for("fog"), "fog");
    assert_eq!(icon_key_for("windy-variant"), "windy");
}

#[test]
fn icon_key_default_for_unknown() {
    assert_eq!(icon_key_for("(offline)"), "default");
    assert_eq!(icon_key_for("Sunny"), "default");
    assert_eq!(icon_key_for(""), "default");
}

#[test]
fn display_names_for_known_conditions() {
    assert_eq!(display_name_for("partlycloudy"), "Partly Cloudy");
    assert_eq!(display_name_for("clear-night"), "Clear");
    assert_eq!(display_name_for("lightning-rainy"), "Thunderstorms & Rain");
    assert_eq!(display_name_for("snowy-rainy"), "Snow & Rain");
    assert_eq!(display_name_for("exceptional"), "Severe Weather");
    assert_eq!(display_name_for("windy-variant"), "Windy");
}

#[test]
fn display_name_fallback_title_cases() {
    assert_eq!(display_name_for("some-condition"), "Some Condition");
    assert_eq!(display_name_for("foo_bar-baz"), "Foo Bar Baz");
    assert_eq!(display_name_for("a--b"), "A  B");
    assert_eq!(display_name_for(""), "");
    assert_eq!(display_name_for("(offline)"), "(offline)");
}

#[test]
fn display_name_fallback_uses_unicode_uppercase() {
    assert_eq!(display_name_for("\u{df}-x"), "SS X");
    assert_eq!(display_name_for("\u{e9}t\u{e9}"), "\u{c9}t\u{e9}");
}

#[test]
fn known_labels_borrowed_fallback_owned() {
    assert!(matches!(display_name_for("sunny"), Cow::Borrowed("Sunny")));
    assert!(matches!(display_name_for("hail"), Cow::Borrowed("Hail")));
    assert!(matches!(display_name_for("some-condition"), Cow::Owned(_)));
    assert!(matches!(display_name_for(""), Cow::Owned(_)));
}
