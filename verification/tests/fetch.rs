//! Fetching page by page, with retries.

use climate::datasources::fetch::{FetchAction, FetchSession, PageOutcome};
use climate::datasources::record::ClimateRecord;
use climate::models::number::Float64;
use climate::utils::error::ClimateError;
use climate::utils::retry::RetryPolicy;

fn policy() -> RetryPolicy {
    RetryPolicy { max_attempts: 3, base_delay_ms: 100, max_delay_ms: 1_000 }
}

fn session() -> FetchSession {
    FetchSession::begin("noaa_cdo", "2024-01-01", "2024-01-02", policy()).unwrap()
}

fn record(minute: u32) -> ClimateRecord {
    ClimateRecord {
        source_id: "noaa_cdo".to_string(),
        timestamp: format!("2024-01-01T12:{:02}:00Z", minute),
        latitude: Float64::from_bits(52.5f64.to_bits()),
        longitude: Float64::from_bits(13.4f64.to_bits()),
        location_name: None,
        data: vec![],
    }
}

fn page(minutes: std::ops::Range<u32>, last: bool) -> PageOutcome {
    PageOutcome::Page { records: minutes.map(record).collect(), last }
}

#[test]
fn a_fetch_needs_a_window() {
    let message = "the window must be two calendar dates, the first not after the second";
    for (start, end) in [("2024-01-02", "2024-01-01"), ("2024-01-01", "soon"), ("", "")] {
        match FetchSession::begin("noaa_cdo", start, end, policy()) {
            Err(error) => assert_eq!(error, ClimateError::ConfigError(message.to_string())),
            Ok(_) => panic!("accepted {:?}..{:?}", start, end),
        }
    }
    let session = session();
    assert_eq!(session.source(), "noaa_cdo");
    assert_eq!((session.start_date(), session.end_date()), ("2024-01-01", "2024-01-02"));
    assert!(!session.is_done());
    assert_eq!(session.fetched_count(), 0);
    assert_eq!(session.current_action(), FetchAction::Request { page: 0 });
}

#[test]
fn pages_are_put_together_in_order() {
    let mut session = session();
    assert_eq!(session.step(page(0..2, false), 0), FetchAction::Request { page: 1 });
    assert_eq!(session.current_action(), FetchAction::Request { page: 1 });
    assert_eq!(session.step(page(2..2, false), 0), FetchAction::Request { page: 2 });
    assert_eq!(session.step(page(2..5, true), 0), FetchAction::Done);
    assert!(session.is_done());
    assert_eq!(session.fetched_count(), 5);
    assert_eq!(session.current_action(), FetchAction::Done);
    let result = session.finish();
    assert_eq!(result.source, "noaa_cdo");
    assert_eq!(result.error, None);
    assert_eq!(result.records, (0..5).map(record).collect::<Vec<_>>());
}

#[test]
fn a_rate_limit_is_waited_out() {
    let mut session = session();
    assert_eq!(
        session.step(PageOutcome::Status(429), 0),
        FetchAction::RetryAfter { delay_ms: 50, page: 0 }
    );
    assert_eq!(
        session.step(PageOutcome::Status(429), 30),
        FetchAction::RetryAfter { delay_ms: 130, page: 0 }
    );
    assert_eq!(session.step(page(0..1, true), 0), FetchAction::Done);
    let result = session.finish();
    assert_eq!(result.error, None);
    assert_eq!(result.records.len(), 1);
}

#[test]
fn a_rate_limit_that_stays_ends_in_an_api_error() {
    let mut session = session();
    session.step(PageOutcome::Status(429), 0);
    session.step(PageOutcome::Status(429), 0);
    assert_eq!(session.step(PageOutcome::Status(429), 0), FetchAction::Done);
    let result = session.finish();
    assert_eq!(
        result.error,
        Some(ClimateError::ApiError("upstream answered with status 429".to_string()))
    );
}

#[test]
fn attempts_start_anew_on_every_page() {
    let mut session = session();
    session.step(PageOutcome::Status(500), 0);
    session.step(PageOutcome::Status(599), 0);
    assert_eq!(session.step(page(0..1, false), 0), FetchAction::Request { page: 1 });
    assert_eq!(
        session.step(PageOutcome::Status(502), 0),
        FetchAction::RetryAfter { delay_ms: 50, page: 1 }
    );
    assert_eq!(
        session.step(PageOutcome::Transport("reset".to_string()), 0),
        FetchAction::RetryAfter { delay_ms: 100, page: 1 }
    );
    assert_eq!(session.step(page(1..2, true), 0), FetchAction::Done);
    assert_eq!(session.finish().records.len(), 2);
}

#[test]
fn a_client_error_is_not_tried_again() {
    for code in [400u16, 401, 403, 404, 418, 428, 430, 499, 600, 301, 100, 0, u16::MAX] {
        let mut session = session();
        assert_eq!(session.step(PageOutcome::Status(code), 0), FetchAction::Done, "{}", code);
        assert_eq!(
            session.finish().error,
            Some(ClimateError::ApiError(format!("upstream answered with status {}", code)))
        );
    }
}

#[test]
fn a_transport_failure_ends_in_a_network_error() {
    let mut session = session();
    assert!(matches!(
        session.step(PageOutcome::Transport("connection refused".to_string()), 0),
        FetchAction::RetryAfter { page: 0, .. }
    ));
    session.step(PageOutcome::Transport("connection refused".to_string()), 0);
    assert_eq!(
        session.step(PageOutcome::Transport("timed out".to_string()), 0),
        FetchAction::Done
    );
    assert_eq!(
        session.finish().error,
        Some(ClimateError::NetworkError("timed out".to_string()))
    );
}

#[test]
fn an_unreadable_payload_ends_in_an_api_error() {
    let mut session = session();
    session.step(PageOutcome::Malformed("expected value at line 1".to_string()), 0);
    session.step(PageOutcome::Malformed("expected value at line 1".to_string()), 0);
    assert_eq!(
        session.step(PageOutcome::Malformed("unexpected end".to_string()), 0),
        FetchAction::Done
    );
    assert_eq!(
        session.finish().error,
        Some(ClimateError::ApiError("unexpected end".to_string()))
    );
}

#[test]
fn records_that_arrived_before_a_failure_are_kept() {
    let mut session = session();
    session.step(page(0..3, false), 0);
    session.step(page(3..4, false), 0);
    assert_eq!(session.step(PageOutcome::Status(404), 0), FetchAction::Done);
    assert!(session.is_done());
    assert_eq!(session.step(page(4..9, true), 0), FetchAction::Done);
    assert_eq!(session.step(PageOutcome::Status(429), 0), FetchAction::Done);
    let result = session.finish();
    assert_eq!(result.records, (0..4).map(record).collect::<Vec<_>>());
    assert_eq!(
        result.error,
        Some(ClimateError::ApiError("upstream answered with status 404".to_string()))
    );
}

#[test]
fn a_single_attempt_means_no_retry() {
    let once = RetryPolicy { max_attempts: 1, base_delay_ms: 100, max_delay_ms: 1_000 };
    let mut session = FetchSession::begin("nasa_power", "2024-01-01", "2024-01-01", once).unwrap();
    assert_eq!(session.step(PageOutcome::Status(503), 0), FetchAction::Done);
    assert!(session.finish().error.is_some());
}
