//! Error types of the platform.

use vstd::prelude::*;
use vstd::string::*;

verus! {

/// Why a record was turned away by validation.
#[derive(Clone, Copy, Debug, PartialEq, Eq, Structural)]
pub enum RejectReason {
    /// A required field is absent, null or empty.
    MissingRequired,
    /// The value cannot be read as the declared type.
    NotCoercible,
    /// A coordinate lies outside its range or is not a finite number.
    OutOfRange,
    /// The record names another source than the one that fetched it.
    WrongSource,
}

/// A single-record defect: which record, which field, and why.
#[derive(Debug, PartialEq, Eq)]
pub struct ValidationIssue {
    pub record: String,
    pub field: String,
    pub reason: RejectReason,
}

/// The mathematical content of a [`ValidationIssue`].
pub struct IssueModel {
    pub record: Seq<char>,
    pub field: Seq<char>,
    pub reason: RejectReason,
}

impl View for ValidationIssue {
    type V = IssueModel;

    open spec fn view(&self) -> IssueModel {
        IssueModel { record: self.record@, field: self.field@, reason: self.reason }
    }
}

impl DeepView for ValidationIssue {
    type V = IssueModel;

    open spec fn deep_view(&self) -> IssueModel {
        self@
    }
}

impl Clone for ValidationIssue {
    fn clone(&self) -> (copy: Self)
        ensures
            copy == *self,
    {
        ValidationIssue {
            record: self.record.clone(),
            field: self.field.clone(),
            reason: self.reason,
        }
    }
}

/// The words that stand for a reason in a message.
pub open spec fn reason_text(reason: RejectReason) -> Seq<char> {
    match reason {
        RejectReason::MissingRequired => "required value is missing"@,
        RejectReason::NotCoercible => "value does not fit the declared type"@,
        RejectReason::OutOfRange => "value is out of range"@,
        RejectReason::WrongSource => "record names another source"@,
    }
}

/// The sentence that describes an issue.
pub open spec fn issue_text(issue: IssueModel) -> Seq<char> {
    "record "@ + issue.record + ", field "@ + issue.field + ": "@ + reason_text(issue.reason)
}

impl ValidationIssue {
    /// The sentence that describes this issue.
    pub fn describe(&self) -> (text: String)
        ensures
            text@ == issue_text(self@),
    {
        let words = match self.reason {
            RejectReason::MissingRequired => "required value is missing",
            RejectReason::NotCoercible => "value does not fit the declared type",
            RejectReason::OutOfRange => "value is out of range",
            RejectReason::WrongSource => "record names another source",
        };
        "record ".to_owned().concat(self.record.as_str()).concat(", field ").concat(
            self.field.as_str(),
        ).concat(": ").concat(words)
    }
}

/// Everything that can go wrong in a run.
#[derive(Debug, PartialEq, Eq)]
pub enum ClimateError {
    /// An upstream API answered with a failure or an unreadable payload.
    ApiError(String),
    /// A record was turned away by validation.
    ValidationError(ValidationIssue),
    /// The warehouse refused or failed a load.
    BigQueryError(String),
    /// Setup is missing or invalid.
    ConfigError(String),
    /// Reading or writing failed.
    IoError(String),
    /// The transport failed.
    NetworkError(String),
    /// A payload was not the JSON that was expected.
    JsonError(String),
}

/// The mathematical content of a [`ClimateError`].
pub enum ErrorModel {
    ApiError(Seq<char>),
    ValidationError(IssueModel),
    BigQueryError(Seq<char>),
    ConfigError(Seq<char>),
    IoError(Seq<char>),
    NetworkError(Seq<char>),
    JsonError(Seq<char>),
}

impl View for ClimateError {
    type V = ErrorModel;

    open spec fn view(&self) -> ErrorModel {
        match self {
            ClimateError::ApiError(m) => ErrorModel::ApiError(m@),
            ClimateError::ValidationError(issue) => ErrorModel::ValidationError(issue@),
            ClimateError::BigQueryError(m) => ErrorModel::BigQueryError(m@),
            ClimateError::ConfigError(m) => ErrorModel::ConfigError(m@),
            ClimateError::IoError(m) => ErrorModel::IoError(m@),
            ClimateError::NetworkError(m) => ErrorModel::NetworkError(m@),
            ClimateError::JsonError(m) => ErrorModel::JsonError(m@),
        }
    }
}

impl DeepView for ClimateError {
    type V = ErrorModel;

    open spec fn deep_view(&self) -> ErrorModel {
        self@
    }
}

impl Clone for ClimateError {
    fn clone(&self) -> (copy: Self)
        ensures
            copy == *self,
    {
        match self {
            ClimateError::ApiError(m) => ClimateError::ApiError(m.clone()),
            ClimateError::ValidationError(issue) => ClimateError::ValidationError(issue.clone()),
            ClimateError::BigQueryError(m) => ClimateError::BigQueryError(m.clone()),
            ClimateError::ConfigError(m) => ClimateError::ConfigError(m.clone()),
            ClimateError::IoError(m) => ClimateError::IoError(m.clone()),
            ClimateError::NetworkError(m) => ClimateError::NetworkError(m.clone()),
            ClimateError::JsonError(m) => ClimateError::JsonError(m.clone()),
        }
    }
}

/// The line that an error shows to a reader.
pub open spec fn error_text(error: ErrorModel) -> Seq<char> {
    match error {
        ErrorModel::ApiError(m) => "API error: "@ + m,
        ErrorModel::ValidationError(issue) => "Data validation error: "@ + issue_text(issue),
        ErrorModel::BigQueryError(m) => "BigQuery error: "@ + m,
        ErrorModel::ConfigError(m) => "Configuration error: "@ + m,
        ErrorModel::IoError(m) => "IO error: "@ + m,
        ErrorModel::NetworkError(m) => "Network error: "@ + m,
        ErrorModel::JsonError(m) => "JSON error: "@ + m,
    }
}

impl ClimateError {
    /// The line that this error shows to a reader.
    pub fn message(&self) -> (text: String)
        ensures
            text@ == error_text(self@),
    {
        match self {
            ClimateError::ApiError(m) => "API error: ".to_owned().concat(m.as_str()),
            ClimateError::ValidationError(issue) => {
                let detail = issue.describe();
                "Data validation error: ".to_owned().concat(detail.as_str())
            },
            ClimateError::BigQueryError(m) => "BigQuery error: ".to_owned().concat(m.as_str()),
            ClimateError::ConfigError(m) => "Configuration error: ".to_owned().concat(m.as_str()),
            ClimateError::IoError(m) => "IO error: ".to_owned().concat(m.as_str()),
            ClimateError::NetworkError(m) => "Network error: ".to_owned().concat(m.as_str()),
            ClimateError::JsonError(m) => "JSON error: ".to_owned().concat(m.as_str()),
        }
    }

    /// Whether the error concerns one record only, so that the run goes on
    /// with the next record.
    pub fn is_record_level(&self) -> (yes: bool)
        ensures
            yes == (self@ is ValidationError),
    {
        match self {
            ClimateError::ValidationError(_) => true,
            _ => false,
        }
    }
}

} // verus!
