use kindle_dashboard::numbers::{decimal_of, parse_i32, signed_decimal_of, zero_padded};
use kindle_dashboard::text::{chars_of, contains, split_any, split_once, str_get, string_of, trim};

fn v(s: &str) -> Vec<char> {
    s.chars().collect()
}

#[test]
fn round_trip_chars() {
    assert_eq!(string_of(&chars_of("h\u{e9}llo")), "h\u{e9}llo");
}

#[test]
fn trim_unicode_white_space() {
    assert_eq!(trim(&v("\u{3000} a b\t\n")), v("a b"));
    assert_eq!(trim(&v("   ")), Vec::<char>::new());
}

#[test]
fn split_keeps_empty_pieces() {
    assert_eq!(split_any(&v("a--b"), &['-']), vec![v("a"), v(""), v("b")]);
    assert_eq!(split_any(&v(""), &['-']), vec![v("")]);
    assert_eq!(split_any(&v("a_b-c"), &['-', '_']), vec![v("a"), v("b"), v("c")]);
}

#[test]
fn substring_search() {
    assert!(contains(&v("take out trash"), &v("trash")));
    assert!(!contains(&v("tras"), &v("trash")));
    assert!(contains(&v("x"), &v("")));
}

#[test]
fn byte_ranges() {
    assert_eq!(str_get(&v("2024-05-01T15:30:00"), 11, 16), Some(v("15:30")));
    assert_eq!(str_get(&v("\u{e9}abc"), 1, 3), None);
    assert_eq!(str_get(&v("\u{e9}abc"), 2, 3), Some(v("a")));
    assert_eq!(str_get(&v("abc"), 2, 1), None);
    assert_eq!(str_get(&v("abc"), 0, 4), None);
}

#[test]
fn split_once_first_occurrence() {
    assert_eq!(split_once(&v("15:30:00"), ':'), Some((v("15"), v("30:00"))));
    assert_eq!(split_once(&v("1530"), ':'), None);
}

#[test]
fn integers() {
    assert_eq!(parse_i32(&v("42")), Some(42));
    assert_eq!(parse_i32(&v("+7")), Some(7));
    assert_eq!(parse_i32(&v("-2147483648")), Some(i32::MIN));
    assert_eq!(parse_i32(&v("2147483648")), None);
    assert_eq!(parse_i32(&v("")), None);
    assert_eq!(parse_i32(&v("+")), None);
    assert_eq!(parse_i32(&v("1a")), None);
    assert_eq!(parse_i32(&v(" 1")), None);
    assert_eq!(string_of(&decimal_of(0)), "0");
    assert_eq!(string_of(&decimal_of(1200)), "1200");
    assert_eq!(string_of(&signed_decimal_of(-35)), "-35");
    assert_eq!(string_of(&zero_padded(v("7"), 4)), "0007");
    assert_eq!(string_of(&zero_padded(v("12345"), 4)), "12345");
}

#[test]
fn white_space_matches_std_for_every_char() {
    for v in 0u32..=0x10FFFF {
        if let Some(c) = char::from_u32(v) {
            assert_eq!(kindle_dashboard::text::char_is_whitespace(c), c.is_whitespace(), "U+{v:04X}");
        }
    }
}
