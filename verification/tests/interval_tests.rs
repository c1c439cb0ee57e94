use std::time::Duration;

use simple_wallpaper::error::IntervalError;
use simple_wallpaper::gui::handlers::slideshow::{interval_fits, parse_interval as panel_parse_interval};
use simple_wallpaper::wallpaper_core::lists_play::{interval_in_range, parse_interval as parse_seconds};
use simple_wallpaper::wallpaper_core::playback_manager::format_interval;
use simple_wallpaper::wallpaper_core::slideshow::parse_interval;

#[test]
fn parse_valid_second_interval() {
    assert_eq!(parse_interval("30s").expect("valid seconds"), Duration::from_secs(30));
}

#[test]
fn parse_valid_minute_interval() {
    assert_eq!(parse_interval("10m").expect("valid minutes"), Duration::from_secs(600));
}

#[test]
fn parse_valid_hour_interval() {
    assert_eq!(parse_interval("2h").expect("valid hours"), Duration::from_secs(7200));
}

#[test]
fn reject_invalid_suffix() {
    let err = parse_interval("10d").expect_err("invalid suffix should fail");
    assert!(err.contains("Invalid interval format"), "unexpected error: {err}");
}

#[test]
fn reject_non_numeric_prefix() {
    let err = parse_interval("xxm").expect_err("non-numeric interval should fail");
    assert!(err.contains("Invalid number"), "unexpected error: {err}");
}

#[test]
fn reject_zero_value() {
    let err = parse_interval("0s").expect_err("zero interval should fail");
    assert_eq!(err, "The interval must be greater than zero.");
}

#[test]
fn test_parse_interval_seconds() {
    assert_eq!(panel_parse_interval("5s"), Ok(5));
    assert_eq!(panel_parse_interval("30s"), Ok(30));
}

#[test]
fn test_parse_interval_minutes() {
    assert_eq!(panel_parse_interval("1m"), Ok(60));
    assert_eq!(panel_parse_interval("5m"), Ok(300));
}

#[test]
fn test_parse_interval_plain() {
    assert_eq!(panel_parse_interval("10"), Ok(10));
}

#[test]
fn test_parse_interval_invalid() {
    assert!(panel_parse_interval("abc").is_err());
    assert!(panel_parse_interval("5x").is_err());
}

#[test]
fn panel_interval_is_trimmed_and_reports_each_error() {
    assert_eq!(panel_parse_interval("  7s \t"), Ok(7));
    assert_eq!(panel_parse_interval("xs"), Err("Invalid seconds value".to_string()));
    assert_eq!(panel_parse_interval("ym"), Err("Invalid minutes value".to_string()));
    assert_eq!(
        panel_parse_interval("5x"),
        Err("Use format: 5s, 1m, or plain number".to_string())
    );
    assert_eq!(panel_parse_interval("+4"), Ok(4));
}

#[test]
fn panel_interval_fit_check() {
    assert!(interval_fits("5m"));
    assert!(interval_fits("abc"));
    assert!(interval_fits("18446744073709551615s"));
    assert!(!interval_fits("18446744073709551615m"));
    assert!(interval_fits("307445734561825860m"));
    assert!(!interval_fits("307445734561825861m"));
}

#[test]
fn interval_seconds_by_unit() {
    assert_eq!(parse_seconds("45s").unwrap(), 45);
    assert_eq!(parse_seconds("15m").unwrap(), 900);
    assert_eq!(parse_seconds("3h").unwrap(), 10800);
}

#[test]
fn interval_error_variants() {
    match parse_seconds("") {
        Err(IntervalError::InvalidFormat { input }) => assert_eq!(input, ""),
        other => panic!("unexpected: {other:?}"),
    }
    match parse_seconds("12") {
        Err(IntervalError::InvalidFormat { input }) => assert_eq!(input, "12"),
        other => panic!("unexpected: {other:?}"),
    }
    match parse_seconds("1.5h") {
        Err(IntervalError::InvalidNumber { input }) => assert_eq!(input, "1.5h"),
        other => panic!("unexpected: {other:?}"),
    }
    match parse_seconds("0m") {
        Err(IntervalError::ZeroInterval) => {}
        other => panic!("unexpected: {other:?}"),
    }
}

#[test]
fn interval_range_check() {
    assert!(interval_in_range("10m"));
    assert!(interval_in_range("nonsense"));
    assert!(!interval_in_range("18446744073709551615h"));
    assert!(interval_in_range("5124095576030431h"));
    assert!(!interval_in_range("5124095576030432h"));
}

#[test]
fn interval_error_messages() {
    assert_eq!(
        parse_interval("10d").unwrap_err(),
        "Invalid interval format: '10d'. Use a number followed by s, m, or h (e.g., 30s, 10m, 2h)."
    );
    assert_eq!(
        parse_interval("xxm").unwrap_err(),
        "Invalid number in 'xxm'. Use a positive integer (e.g., 30s, 10m, 2h)."
    );
}

#[test]
fn format_interval_picks_largest_unit() {
    assert_eq!(format_interval(7200), "2h");
    assert_eq!(format_interval(900), "15m");
    assert_eq!(format_interval(61), "61s");
    assert_eq!(format_interval(3660), "61m");
}

#[test]
fn formatted_interval_reads_back() {
    for secs in [1u64, 59, 60, 61, 3599, 3600, 5400, 86400, 123457] {
        let text = format_interval(secs);
        assert_eq!(parse_seconds(&text).unwrap(), secs, "interval {text}");
    }
}
