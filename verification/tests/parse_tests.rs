//! Parsing tests: duration text to duration value.

use duration_string::{Duration, DurationString, Error, IntError};

fn test_parse_string(input_str: &str, expected_duration: Duration) {
    let d_fromstr: Duration = input_str
        .parse::<DurationString>()
        .expect("Parse with FromStr failed")
        .into();
    assert_eq!(d_fromstr, expected_duration, "FromStr");
    let d_from_string: Duration = DurationString::from_string(input_str.to_owned())
        .expect("Parse with from_string failed")
        .into();
    assert_eq!(d_from_string, expected_duration, "from_string");
}

#[test]
fn test_string_int_overflow() {
    DurationString::from_string(String::from("ms")).expect_err("parsing \"ms\" should fail");
}

#[test]
fn test_from_string_no_char() {
    DurationString::from_string(String::from("1234")).expect_err("parsing \"1234\" should fail");
}

#[test]
fn test_from_string() {
    let d = DurationString::from_string(String::from("100ms"));
    assert_eq!("100ms", d.unwrap().to_text());
}

#[test]
fn test_from_string_ms() {
    test_parse_string("100ms", Duration::from_millis(100));
}

#[test]
fn test_from_string_us() {
    test_parse_string("100us", Duration::from_micros(100));
}

#[test]
fn test_from_string_us_ms() {
    test_parse_string("1ms100us", Duration::from_micros(1100));
}

#[test]
fn test_from_string_ns() {
    test_parse_string("100ns", Duration::from_nanos(100));
}

#[test]
fn test_from_string_s() {
    test_parse_string("1s", Duration::from_secs(1));
}

#[test]
fn test_from_string_m() {
    test_parse_string("1m", Duration::from_secs(60));
}

#[test]
fn test_from_string_m_s() {
    test_parse_string("1m 1s", Duration::from_secs(61));
}

#[test]
fn test_from_string_h() {
    test_parse_string("1h", Duration::from_secs(3600));
}

#[test]
fn test_from_string_h_m() {
    test_parse_string("1h30m", Duration::from_secs(5400));
}

#[test]
fn test_from_string_h_m2() {
    test_parse_string("1h128m", Duration::from_secs(11280));
}

#[test]
fn test_from_string_d() {
    test_parse_string("1d", Duration::from_secs(86_400));
}

#[test]
fn test_from_string_w() {
    test_parse_string("1w", Duration::from_secs(604_800));
}

#[test]
fn test_from_string_w_s() {
    test_parse_string("1w 1s", Duration::from_secs(604_801));
}

#[test]
fn test_from_string_y() {
    test_parse_string("1y", Duration::from_secs(31_556_926));
}

#[test]
fn test_from_string_invalid_string() {
    DurationString::parse_text("1000x").expect_err("Should have failed with invalid format");
}

#[test]
fn test_try_from_string_overflow_y() {
    let result = DurationString::from_string(String::from("584554530873y"));
    assert_eq!(result, Err(Error::Overflow));
}

#[test]
fn test_try_from_string_overflow_y_w() {
    let result = DurationString::from_string(String::from("584554530872y 29w"));
    assert_eq!(result, Err(Error::Overflow));
}

#[test]
fn test_parse_below_overflow_threshold() {
    let result = DurationString::from_string(String::from("584554530872y"));
    assert!(result.is_ok(), "one year below the overflow threshold must parse");
}

#[test]
fn test_error_kind_no_digits() {
    assert_eq!(
        DurationString::parse_text("ms"),
        Err(Error::ParseInt(IntError::Empty))
    );
}

#[test]
fn test_error_kind_no_unit() {
    assert_eq!(DurationString::parse_text("1234"), Err(Error::Format));
}

#[test]
fn test_error_kind_unknown_unit() {
    assert_eq!(DurationString::parse_text("1000x"), Err(Error::Format));
}

#[test]
fn test_error_kind_field_too_large() {
    assert_eq!(
        DurationString::parse_text("99999999999999999999999s"),
        Err(Error::ParseInt(IntError::PosOverflow))
    );
}

#[test]
fn test_error_kind_empty_input() {
    assert_eq!(
        DurationString::parse_text(""),
        Err(Error::ParseInt(IntError::Empty))
    );
}

#[test]
fn test_error_kind_trailing_number() {
    assert_eq!(DurationString::parse_text("1h2"), Err(Error::Format));
}

#[test]
fn test_unicode_whitespace_tolerance() {
    let no_break: Duration = DurationString::parse_text("1m\u{a0}1s").unwrap().into();
    assert_eq!(no_break, Duration::from_secs(61));
    let ideographic: Duration = DurationString::parse_text("1m\u{3000}1s").unwrap().into();
    assert_eq!(ideographic, Duration::from_secs(61));
    let next_line: Duration = DurationString::parse_text("1s\u{85}").unwrap().into();
    assert_eq!(next_line, Duration::from_secs(1));
}

#[test]
fn test_whitespace_tolerance() {
    let spaced: Duration = DurationString::parse_text("1m 1s").unwrap().into();
    let tight: Duration = DurationString::parse_text("1m1s").unwrap().into();
    assert_eq!(spaced, tight);
    assert_eq!(spaced, Duration::from_secs(61));
}
