//! Errors and how they read.

use climate::utils::error::{ClimateError, RejectReason, ValidationIssue};

fn issue(reason: RejectReason) -> ValidationIssue {
    ValidationIssue { record: "r1".to_string(), field: "latitude".to_string(), reason }
}

#[test]
fn every_error_has_its_line() {
    let cases = [
        (ClimateError::ApiError("x".to_string()), "API error: x"),
        (ClimateError::BigQueryError("x".to_string()), "BigQuery error: x"),
        (ClimateError::ConfigError("x".to_string()), "Configuration error: x"),
        (ClimateError::IoError("x".to_string()), "IO error: x"),
        (ClimateError::NetworkError("x".to_string()), "Network error: x"),
        (ClimateError::JsonError(String::new()), "JSON error: "),
        (
            ClimateError::ValidationError(issue(RejectReason::OutOfRange)),
            "Data validation error: record r1, field latitude: value is out of range",
        ),
    ];
    for (error, line) in cases {
        assert_eq!(error.message(), line);
        assert_eq!(error.clone(), error);
        assert_eq!(error.is_record_level(), matches!(error, ClimateError::ValidationError(_)));
    }
}

#[test]
fn every_reason_has_its_words() {
    assert_eq!(
        issue(RejectReason::MissingRequired).describe(),
        "record r1, field latitude: required value is missing"
    );
    assert_eq!(
        issue(RejectReason::NotCoercible).describe(),
        "record r1, field latitude: value does not fit the declared type"
    );
    assert_eq!(
        issue(RejectReason::OutOfRange).describe(),
        "record r1, field latitude: value is out of range"
    );
    let first = issue(RejectReason::NotCoercible);
    assert_eq!(first.clone(), first);
}

#[test]
fn a_json_error_becomes_a_json_error() {
    let failure = serde_json::from_str::<serde_json::Value>("{\"a\": ").unwrap_err();
    let line = failure.to_string();
    assert!(!line.is_empty());
    let error = ClimateError::from(failure);
    assert_eq!(error, ClimateError::JsonError(line.clone()));
    assert_eq!(error.message(), format!("JSON error: {}", line));
}

#[test]
fn a_request_error_becomes_a_network_error() {
    let failure = reqwest::Client::new().get("not a url").build().unwrap_err();
    let line = failure.to_string();
    assert!(!line.is_empty());
    let error: ClimateError = failure.into();
    assert_eq!(error, ClimateError::NetworkError(line));
}

#[test]
fn an_io_error_becomes_an_io_error() {
    let failure = std::io::Error::new(std::io::ErrorKind::NotFound, "no such file");
    let error = ClimateError::from(failure);
    assert_eq!(error, ClimateError::IoError("no such file".to_string()));
    assert_eq!(error.message(), "IO error: no such file");
}
