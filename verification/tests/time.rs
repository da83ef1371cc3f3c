//! Calendar dates, windows and timestamps.

use climate::utils::time::{check_window, is_timestamp, parse_date, CalendarDate};

#[test]
fn calendar_dates_are_read() {
    assert_eq!(parse_date("2024-01-01"), Some(CalendarDate { year: 2024, month: 1, day: 1 }));
    assert_eq!(parse_date("1999-12-31"), Some(CalendarDate { year: 1999, month: 12, day: 31 }));
    assert_eq!(parse_date("0000-01-01"), Some(CalendarDate { year: 0, month: 1, day: 1 }));
}

#[test]
fn malformed_dates_are_refused() {
    for text in [
        "", "2024-1-01", "2024-01-1", "24-01-01", "2024/01/01", "2024-01-01 ", " 2024-01-01",
        "2024-01-0a", "2024-00-10", "2024-13-01", "2024-01-00", "2024-01-32", "2024-04-31",
        "20240101", "2024-01-01T00:00:00Z", "٢٠٢٤-٠١-٠١",
    ] {
        assert_eq!(parse_date(text), None, "{:?}", text);
    }
}

#[test]
fn february_has_its_true_length() {
    assert!(parse_date("2024-02-29").is_some());
    assert!(parse_date("2023-02-29").is_none());
    assert!(parse_date("2000-02-29").is_some());
    assert!(parse_date("1900-02-29").is_none());
    assert!(parse_date("2100-02-28").is_some());
    assert!(parse_date("2024-02-30").is_none());
}

#[test]
fn months_have_their_true_lengths() {
    let lengths = [31, 29, 31, 30, 31, 30, 31, 31, 30, 31, 30, 31];
    for (index, length) in lengths.iter().enumerate() {
        let month = index + 1;
        assert!(parse_date(&format!("2024-{:02}-{:02}", month, length)).is_some());
        assert!(parse_date(&format!("2024-{:02}-{:02}", month, length + 1)).is_none());
    }
}

#[test]
fn a_window_runs_forward() {
    assert!(check_window("2024-01-01", "2024-01-02"));
    assert!(check_window("2024-01-01", "2024-01-01"));
    assert!(check_window("2023-12-31", "2024-01-01"));
    assert!(check_window("2024-01-31", "2024-02-01"));
    assert!(!check_window("2024-01-02", "2024-01-01"));
    assert!(!check_window("2024-02-01", "2024-01-31"));
    assert!(!check_window("2025-01-01", "2024-12-31"));
    assert!(!check_window("2024-01-01", "2024-02-30"));
    assert!(!check_window("yesterday", "2024-01-01"));
}

#[test]
fn timestamps_with_an_offset_are_valid() {
    for text in [
        "2024-01-01T00:00:00Z",
        "2024-01-01t00:00:00z",
        "2024-01-01 00:00:00Z",
        "2024-02-29T23:59:59Z",
        "2024-06-30T23:59:60Z",
        "2024-01-01T12:30:45.5Z",
        "2024-01-01T12:30:45.123456789Z",
        "2024-01-01T12:30:45+00:00",
        "2024-01-01T12:30:45-08:00",
        "2024-01-01T12:30:45.250+05:30",
        "2024-01-01T12:30:45+23:59",
    ] {
        assert!(is_timestamp(text), "{:?}", text);
    }
}

#[test]
fn timestamps_that_name_no_instant_are_refused() {
    for text in [
        "",
        "2024-01-01",
        "2024-01-01T00:00:00",
        "2024-01-01T00:00Z",
        "2024-01-01T24:00:00Z",
        "2024-01-01T23:60:00Z",
        "2024-01-01T23:59:61Z",
        "2023-02-29T00:00:00Z",
        "2024-13-01T00:00:00Z",
        "2024-01-01X00:00:00Z",
        "2024-01-01T00:00:00.Z",
        "2024-01-01T00:00:00,5Z",
        "2024-01-01T00:00:00.5",
        "2024-01-01T00:00:00.5.5Z",
        "2024-01-01T00:00:00ZZ",
        "2024-01-01T00:00:00+0000",
        "2024-01-01T00:00:00+24:00",
        "2024-01-01T00:00:00+00:60",
        "2024-01-01T00:00:00 00:00",
        "2024-01-01T00:00:00Z ",
        "2024-01-01T00:00:00+1:00",
        "2024-01-01T00:00:00.12a+01:00",
    ] {
        assert!(!is_timestamp(text), "{:?}", text);
    }
}
