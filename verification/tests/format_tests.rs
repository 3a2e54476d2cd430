//! Formatting tests: duration value to its most compact exact text.

use duration_string::{Duration, DurationString};

#[test]
fn test_display_trait() {
    let d = DurationString::from(Duration::from_millis(100));
    assert_eq!("100ms", d.to_text());
}

#[test]
fn test_from_duration() {
    let d: String = DurationString::from(Duration::from_millis(100)).to_text();
    assert_eq!(d, String::from("100ms"));
}

#[test]
fn test_into_string_ms() {
    let d: String = DurationString::from_string(String::from("100ms"))
        .unwrap()
        .to_text();
    assert_eq!(d, "100ms");
}

#[test]
fn test_into_string_ms_str() {
    let d: String = DurationString::parse_text("100ms").unwrap().to_text();
    assert_eq!(d, "100ms");
}

#[test]
fn test_into_string_s() {
    let d: String = DurationString::from_string(String::from("1s")).unwrap().to_text();
    assert_eq!(d, "1s");
}

#[test]
fn test_into_string_m() {
    let d: String = DurationString::from_string(String::from("1m")).unwrap().to_text();
    assert_eq!(d, "1m");
}

#[test]
fn test_into_string_h() {
    let d: String = DurationString::from_string(String::from("1h")).unwrap().to_text();
    assert_eq!(d, "1h");
}

#[test]
fn test_into_string_d() {
    let d: String = DurationString::from_string(String::from("1d")).unwrap().to_text();
    assert_eq!(d, "1d");
}

#[test]
fn test_into_string_w() {
    let d: String = DurationString::from_string(String::from("1w")).unwrap().to_text();
    assert_eq!(d, "1w");
}

#[test]
fn test_into_string_y() {
    let d: String = DurationString::from_string(String::from("1y")).unwrap().to_text();
    assert_eq!(d, "1y");
}

#[test]
fn test_into_string_overflow_unit() {
    let d: String = DurationString::from_string(String::from("1000ms"))
        .unwrap()
        .to_text();
    assert_eq!(d, "1s");

    let d: String = DurationString::from_string(String::from("60000ms"))
        .unwrap()
        .to_text();
    assert_eq!(d, "1m");

    let d: String = DurationString::from_string(String::from("61000ms"))
        .unwrap()
        .to_text();
    assert_eq!(d, "61s");
}

#[test]
fn test_format_picks_year() {
    let d = DurationString::new(Duration::from_secs(31_556_926));
    assert_eq!(d.to_text(), "1y");
}

#[test]
fn test_format_zero() {
    let d = DurationString::new(Duration::zero());
    assert_eq!(d.to_text(), "0y");
}

#[test]
fn test_format_inexact_stays_fine() {
    let d = DurationString::new(Duration::from_nanos(1_000_000_001));
    assert_eq!(d.to_text(), "1000000001ns");
}

#[test]
fn test_format_sub_second_units() {
    assert_eq!(DurationString::new(Duration::from_nanos(1_000)).to_text(), "1us");
    assert_eq!(DurationString::new(Duration::from_nanos(2_500_000)).to_text(), "2500us");
    assert_eq!(DurationString::new(Duration::from_millis(250)).to_text(), "250ms");
}
