use engine_rust::calendar::{parse_datetime_value, time_of_day, TimeOfDay};
use engine_rust::stamp::Stamp;
use engine_rust::stats::equity_curve_elapsed_seconds;
use engine_rust::text::{text_eq, trim};

fn stamp(year: i32, month: u32, day: u32, hour: u32, minute: u32, second: u32, nano: u32) -> Stamp {
    Stamp { year, month, day, hour, minute, second, nano }
}

#[test]
fn parses_space_separated_datetime() {
    assert_eq!(
        parse_datetime_value("2024-01-02 09:30:00", false),
        Some(stamp(2024, 1, 2, 9, 30, 0, 0))
    );
}

#[test]
fn parses_fractional_seconds() {
    assert_eq!(
        parse_datetime_value("2024-01-02 09:30:00.25", false),
        Some(stamp(2024, 1, 2, 9, 30, 0, 250_000_000))
    );
}

#[test]
fn parses_minutes_only_and_t_separator() {
    assert_eq!(parse_datetime_value("2024-01-02 09:30", false), Some(stamp(2024, 1, 2, 9, 30, 0, 0)));
    assert_eq!(parse_datetime_value("2024-01-02T09:30", true), Some(stamp(2024, 1, 2, 9, 30, 0, 0)));
    assert_eq!(
        parse_datetime_value("2024-01-02T09:30:15", false),
        Some(stamp(2024, 1, 2, 9, 30, 15, 0))
    );
}

#[test]
fn rfc3339_is_taken_in_utc() {
    assert_eq!(
        parse_datetime_value("2024-01-02T09:30:00+08:00", false),
        Some(stamp(2024, 1, 2, 1, 30, 0, 0))
    );
    assert_eq!(
        parse_datetime_value("2024-01-01T23:00:00-02:00", false),
        Some(stamp(2024, 1, 2, 1, 0, 0, 0))
    );
}

#[test]
fn date_alone_is_start_or_end_of_day() {
    assert_eq!(parse_datetime_value("2024-03-05", false), Some(stamp(2024, 3, 5, 0, 0, 0, 0)));
    assert_eq!(
        parse_datetime_value("2024-03-05", true),
        Some(stamp(2024, 3, 5, 23, 59, 59, 999_999_999))
    );
}

#[test]
fn surrounding_white_space_is_ignored() {
    assert_eq!(
        parse_datetime_value("  2024-03-05 10:00:00\t\n", false),
        Some(stamp(2024, 3, 5, 10, 0, 0, 0))
    );
}

#[test]
fn unreadable_texts_give_none() {
    assert_eq!(parse_datetime_value("", false), None);
    assert_eq!(parse_datetime_value("   ", true), None);
    assert_eq!(parse_datetime_value("yesterday", false), None);
    assert_eq!(parse_datetime_value("2024-13-01", false), None);
    assert_eq!(parse_datetime_value("2024-02-30 10:00", false), None);
}

#[test]
fn time_of_day_ranges() {
    assert_eq!(
        time_of_day(23, 59, 59, 1_999_999_999),
        Some(TimeOfDay { hour: 23, minute: 59, second: 59, nano: 1_999_999_999 })
    );
    assert_eq!(time_of_day(0, 0, 0, 0), Some(TimeOfDay { hour: 0, minute: 0, second: 0, nano: 0 }));
    assert_eq!(time_of_day(24, 0, 0, 0), None);
    assert_eq!(time_of_day(23, 60, 0, 0), None);
    assert_eq!(time_of_day(23, 59, 60, 0), None);
    assert_eq!(time_of_day(23, 59, 58, 1_000_000_000), None);
    assert_eq!(time_of_day(23, 59, 59, 2_000_000_000), None);
}

#[test]
fn stamps_compare_chronologically() {
    let a = stamp(2024, 1, 2, 9, 30, 0, 0);
    let b = stamp(2024, 1, 2, 9, 30, 0, 1);
    let c = stamp(2023, 12, 31, 23, 59, 59, 999_999_999);
    assert!(a.is_before(&b));
    assert!(!b.is_before(&a));
    assert!(!a.is_before(&a));
    assert!(c.is_before(&a));
}

#[test]
fn trim_removes_unicode_white_space() {
    assert_eq!(trim("\u{3000} x y\t\u{a0}"), "x y");
    assert_eq!(trim("   "), "");
    assert_eq!(trim("abc"), "abc");
    assert!(text_eq("abc", "abc"));
    assert!(!text_eq("abc", "abd"));
    assert!(!text_eq("abc", "ab"));
}

#[test]
fn curve_span_in_whole_seconds() {
    assert_eq!(equity_curve_elapsed_seconds(Some("2024-01-01"), Some("2024-01-02")), Some(86_400));
    assert_eq!(
        equity_curve_elapsed_seconds(Some("2024-01-01 09:30:00"), Some("2024-01-01 09:31:30.9")),
        Some(90)
    );
    assert_eq!(
        equity_curve_elapsed_seconds(Some("2024-01-01T00:00:00+01:00"), Some("2024-01-01 00:00:00")),
        Some(3_600)
    );
}

#[test]
fn curve_span_none_cases() {
    assert_eq!(equity_curve_elapsed_seconds(Some("2024-01-01"), Some("2024-01-01")), None);
    assert_eq!(equity_curve_elapsed_seconds(Some("2024-01-02"), Some("2024-01-01")), None);
    assert_eq!(equity_curve_elapsed_seconds(None, Some("2024-01-01")), None);
    assert_eq!(equity_curve_elapsed_seconds(Some("2024-01-01"), None), None);
    assert_eq!(equity_curve_elapsed_seconds(Some("bad"), Some("2024-01-01")), None);
}
