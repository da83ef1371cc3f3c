//! Errors of other libraries as errors of the platform.

use crate::utils::error::ClimateError;
use vstd::prelude::*;
use vstd::std_specs::convert::FromSpecImpl;

verus! {

/// `serde_json::Error`, carried through as it is; nothing is claimed of it.
#[verifier::external_type_specification]
#[verifier::external_body]
pub struct ExJsonError(serde_json::Error);

/// `reqwest::Error`, carried through as it is; nothing is claimed of it.
#[verifier::external_type_specification]
#[verifier::external_body]
pub struct ExRequestError(reqwest::Error);

/// `std::io::Error`, carried through as it is; nothing is claimed of it.
#[verifier::external_type_specification]
#[verifier::external_body]
pub struct ExIoError(std::io::Error);

/// The line that a `serde_json::Error` shows, by its `to_string`. Nothing is
/// claimed of the text.
#[verifier::external_body]
fn json_error_text(error: &serde_json::Error) -> (text: String) {
    error.to_string()
}

/// The line that a `reqwest::Error` shows, by its `to_string`. Nothing is
/// claimed of the text.
#[verifier::external_body]
fn request_error_text(error: &reqwest::Error) -> (text: String) {
    error.to_string()
}

/// The line that a `std::io::Error` shows, by its `to_string`. Nothing is
/// claimed of the text.
#[verifier::external_body]
fn io_error_text(error: &std::io::Error) -> (text: String) {
    error.to_string()
}

impl From<serde_json::Error> for ClimateError {
    /// A JSON error with the line that the error shows.
    fn from(error: serde_json::Error) -> (made: ClimateError)
        ensures
            made is JsonError,
    {
        ClimateError::JsonError(json_error_text(&error))
    }
}

impl FromSpecImpl<serde_json::Error> for ClimateError {
    open spec fn obeys_from_spec() -> bool {
        false
    }

    open spec fn from_spec(error: serde_json::Error) -> ClimateError {
        arbitrary()
    }
}

impl From<reqwest::Error> for ClimateError {
    /// A network error with the line that the error shows.
    fn from(error: reqwest::Error) -> (made: ClimateError)
        ensures
            made is NetworkError,
    {
        ClimateError::NetworkError(request_error_text(&error))
    }
}

impl FromSpecImpl<reqwest::Error> for ClimateError {
    open spec fn obeys_from_spec() -> bool {
        false
    }

    open spec fn from_spec(error: reqwest::Error) -> ClimateError {
        arbitrary()
    }
}

impl From<std::io::Error> for ClimateError {
    /// An IO error with the line that the error shows.
    fn from(error: std::io::Error) -> (made: ClimateError)
        ensures
            made is IoError,
    {
        ClimateError::IoError(io_error_text(&error))
    }
}

impl FromSpecImpl<std::io::Error> for ClimateError {
    open spec fn obeys_from_spec() -> bool {
        false
    }

    open spec fn from_spec(error: std::io::Error) -> ClimateError {
        arbitrary()
    }
}

} // verus!
