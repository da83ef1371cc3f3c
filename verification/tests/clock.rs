//! From seconds on the clock to a timestamp.

use climate::bigquery::loader::SubmitOutcome;
use climate::utils::clock::{civil_from_unix, timestamp_from_unix, CivilTime};
use climate::utils::retry::is_retryable_status;
use climate::utils::time::is_timestamp;

#[test]
fn the_clock_starts_in_1970() {
    assert_eq!(timestamp_from_unix(0).as_deref(), Some("1970-01-01T00:00:00Z"));
    assert_eq!(timestamp_from_unix(1).as_deref(), Some("1970-01-01T00:00:01Z"));
    assert_eq!(timestamp_from_unix(59).as_deref(), Some("1970-01-01T00:00:59Z"));
    assert_eq!(timestamp_from_unix(60).as_deref(), Some("1970-01-01T00:01:00Z"));
    assert_eq!(timestamp_from_unix(86_399).as_deref(), Some("1970-01-01T23:59:59Z"));
    assert_eq!(timestamp_from_unix(86_400).as_deref(), Some("1970-01-02T00:00:00Z"));
}

#[test]
fn known_instants() {
    let cases = [
        (951_782_400u64, "2000-02-29T00:00:00Z"),
        (951_868_799, "2000-02-29T23:59:59Z"),
        (951_868_800, "2000-03-01T00:00:00Z"),
        (1_704_067_200, "2024-01-01T00:00:00Z"),
        (1_709_164_800, "2024-02-29T00:00:00Z"),
        (1_709_251_200, "2024-03-01T00:00:00Z"),
        (1_735_689_599, "2024-12-31T23:59:59Z"),
        (1_735_689_600, "2025-01-01T00:00:00Z"),
        (1_234_567_890, "2009-02-13T23:31:30Z"),
        (4_102_444_800, "2100-01-01T00:00:00Z"),
        (4_107_542_400, "2100-03-01T00:00:00Z"),
        (253_402_300_799, "9999-12-31T23:59:59Z"),
    ];
    for (seconds, text) in cases {
        assert_eq!(timestamp_from_unix(seconds).as_deref(), Some(text), "{}", seconds);
        assert!(is_timestamp(text));
    }
}

#[test]
fn the_clock_ends_with_the_year_9999() {
    assert_eq!(timestamp_from_unix(253_402_300_800), None);
    assert_eq!(civil_from_unix(253_402_300_800), None);
    assert_eq!(timestamp_from_unix(u64::MAX), None);
}

#[test]
fn dates_and_times_are_told_apart() {
    assert_eq!(
        civil_from_unix(1_709_210_096),
        Some(CivilTime { year: 2024, month: 2, day: 29, hour: 12, minute: 34, second: 56 })
    );
    let time = CivilTime { year: 2024, month: 2, day: 29, hour: 12, minute: 34, second: 56 };
    assert_eq!(time.to_timestamp(), "2024-02-29T12:34:56Z");
    let early = CivilTime { year: 7, month: 1, day: 2, hour: 3, minute: 4, second: 5 };
    assert_eq!(early.to_timestamp(), "0007-01-02T03:04:05Z");
}

#[test]
fn every_day_of_four_years_follows_the_one_before() {
    let mut previous = timestamp_from_unix(1_704_067_200 - 86_400).unwrap();
    for day in 0..(4 * 366) {
        let stamp = timestamp_from_unix(1_704_067_200 + day * 86_400 + 3_661).unwrap();
        assert!(is_timestamp(&stamp), "{}", stamp);
        assert!(stamp > previous, "{} after {}", stamp, previous);
        assert!(stamp.ends_with("T01:01:01Z"));
        previous = stamp;
    }
    assert_eq!(previous, "2028-01-03T01:01:01Z");
}

#[test]
fn statuses_that_ask_for_another_attempt() {
    for code in [429u16, 500, 502, 503, 504, 599] {
        assert!(is_retryable_status(code), "{}", code);
        assert_eq!(
            SubmitOutcome::from_failure(Some(code), "x".to_string()),
            SubmitOutcome::Transient("x".to_string())
        );
    }
    for code in [0u16, 200, 301, 400, 401, 403, 404, 428, 430, 499, 600, u16::MAX] {
        assert!(!is_retryable_status(code), "{}", code);
        assert_eq!(
            SubmitOutcome::from_failure(Some(code), "x".to_string()),
            SubmitOutcome::Permanent("x".to_string())
        );
    }
    assert_eq!(
        SubmitOutcome::from_failure(None, "timed out".to_string()),
        SubmitOutcome::Transient("timed out".to_string())
    );
}
