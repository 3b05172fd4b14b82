use rusto::settings::{parse_u32, window_settings_from_config};

fn entry(k: &str, v: &str) -> (String, String) {
    (k.to_string(), v.to_string())
}

#[test]
fn parse_u32_accepts_digit_strings_only() {
    assert_eq!(parse_u32("0"), Some(0));
    assert_eq!(parse_u32("123"), Some(123));
    assert_eq!(parse_u32("4294967295"), Some(u32::MAX));
    assert_eq!(parse_u32(""), None);
    assert_eq!(parse_u32("12a"), None);
    assert_eq!(parse_u32("-3"), None);
    assert_eq!(parse_u32("4294967296"), None);
    assert_eq!(parse_u32("999999999999999"), None);
}

#[test]
fn settings_come_from_the_configuration() {
    let entries = vec![
        entry("width", "1024"),
        entry("height", "768"),
        entry("window_title", "engine"),
        entry("fullscreen", "true"),
    ];
    let s = window_settings_from_config(&entries);
    assert_eq!(s.width, 1024);
    assert_eq!(s.height, 768);
    assert_eq!(s.window_title, "engine");
    assert!(s.fullscreen);
}

#[test]
fn missing_values_fall_back_to_defaults() {
    let s = window_settings_from_config(&vec![]);
    assert_eq!(s.width, 640);
    assert_eq!(s.height, 480);
    assert_eq!(s.window_title, "No title?");
    assert!(!s.fullscreen);
}

#[test]
fn unparseable_values_fall_back_too() {
    let entries = vec![
        entry("width", "wide"),
        entry("height", ""),
        entry("fullscreen", "maybe"),
    ];
    let s = window_settings_from_config(&entries);
    assert_eq!(s.width, 640);
    assert_eq!(s.height, 480);
    assert!(!s.fullscreen);
}

#[test]
fn fullscreen_needs_the_exact_word() {
    let s = window_settings_from_config(&vec![entry("fullscreen", "false")]);
    assert!(!s.fullscreen);
    let s2 = window_settings_from_config(&vec![entry("fullscreen", "true")]);
    assert!(s2.fullscreen);
    let s3 = window_settings_from_config(&vec![entry("fullscreen", "True")]);
    assert!(!s3.fullscreen);
}
