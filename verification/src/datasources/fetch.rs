//! Fetching the records of one source for one time window.
//!
//! A fetch runs page by page. The session is a state machine: the caller
//! requests the page that the session asks for, reports what came of it, and
//! is told what to do next. Pages are put together in order, so that the
//! caller ends with one sequence for the whole window.
//!
//! An answer that asks to slow down (status 429), a failure on the upstream
//! side (status 500 to 599), an unreadable payload and a failure of the
//! transport are tried again after a delay that grows from attempt to
//! attempt, until the attempts of the retry policy are used up. Any other
//! status that is no success ends the fetch at once. A fetch that ends in
//! failure keeps the records of the pages that had arrived.

use crate::datasources::record::{ClimateRecord, RecordModel};
use crate::utils::error::{ClimateError, ErrorModel};
use crate::utils::retry::{backoff_delay, is_retryable_status, status_retryable, RetryPolicy};
use crate::utils::text::{decimal_digits, push_decimal};
use crate::utils::time::{check_window, is_window};
use vstd::prelude::*;
use vstd::string::*;

verus! {

/// What came of the request of one page.
#[derive(Debug, PartialEq, Eq)]
pub enum PageOutcome {
    /// The upstream answered with success and a readable payload: the
    /// records of the page, and whether it is the last page of the window.
    Page { records: Vec<ClimateRecord>, last: bool },
    /// The upstream answered with a status that is no success.
    Status(u16),
    /// The upstream answered with success, but the payload could not be read.
    Malformed(String),
    /// The transport failed: no answer arrived.
    Transport(String),
}

/// The mathematical content of a [`PageOutcome`].
pub enum PageModel {
    Page { records: Seq<RecordModel>, last: bool },
    Status(u16),
    Malformed(Seq<char>),
    Transport(Seq<char>),
}

impl View for PageOutcome {
    type V = PageModel;

    open spec fn view(&self) -> PageModel {
        match self {
            PageOutcome::Page { records, last } => PageModel::Page {
                records: records.deep_view(),
                last: *last,
            },
            PageOutcome::Status(code) => PageModel::Status(*code),
            PageOutcome::Malformed(message) => PageModel::Malformed(message@),
            PageOutcome::Transport(message) => PageModel::Transport(message@),
        }
    }
}

/// What the caller of a session does next.
#[derive(Clone, Copy, Debug, PartialEq, Eq, Structural)]
pub enum FetchAction {
    /// Request the page of this number, counted from 0.
    Request { page: u64 },
    /// Wait for so many ms, then request the page again.
    RetryAfter { delay_ms: u64, page: u64 },
    /// The fetch has ended: take the result.
    Done,
}

/// The mathematical content of a [`FetchSession`].
pub struct SessionModel {
    pub source: Seq<char>,
    pub start: Seq<char>,
    pub end: Seq<char>,
    pub policy: RetryPolicy,
    /// The page that is requested next, counted from 0.
    pub page: u64,
    /// The number of the attempt at that page, counted from 1.
    pub attempt: u32,
    /// The records of the pages that have arrived, in order.
    pub records: Seq<RecordModel>,
    /// Why the fetch failed, if it did.
    pub error: Option<ErrorModel>,
    pub done: bool,
}

/// The session at the start of a fetch.
pub open spec fn fresh_session(
    source: Seq<char>,
    start: Seq<char>,
    end: Seq<char>,
    policy: RetryPolicy,
) -> SessionModel {
    SessionModel {
        source,
        start,
        end,
        policy,
        page: 0,
        attempt: 1,
        records: Seq::empty(),
        error: None,
        done: false,
    }
}

/// Whether an outcome asks for another attempt.
pub open spec fn outcome_retryable(outcome: PageModel) -> bool {
    match outcome {
        PageModel::Page { .. } => false,
        PageModel::Status(code) => status_retryable(code),
        PageModel::Malformed(_) => true,
        PageModel::Transport(_) => true,
    }
}

/// The error with which a fetch ends on a failed page: a network error where
/// the transport failed, an API error in every other case.
pub open spec fn outcome_error(outcome: PageModel) -> ErrorModel {
    match outcome {
        PageModel::Page { .. } => ErrorModel::ApiError("the upstream sent more pages than can be counted"@),
        PageModel::Status(code) => ErrorModel::ApiError(
            "upstream answered with status "@ + decimal_digits(code as nat),
        ),
        PageModel::Malformed(message) => ErrorModel::ApiError(message),
        PageModel::Transport(message) => ErrorModel::NetworkError(message),
    }
}

/// The session after the outcome of a page is reported.
pub open spec fn after_page(state: SessionModel, outcome: PageModel) -> SessionModel {
    if state.done {
        state
    } else {
        match outcome {
            PageModel::Page { records, last } => {
                if last {
                    SessionModel { records: state.records + records, done: true, ..state }
                } else if state.page == u64::MAX {
                    SessionModel {
                        records: state.records + records,
                        error: Some(outcome_error(outcome)),
                        done: true,
                        ..state
                    }
                } else {
                    SessionModel {
                        records: state.records + records,
                        page: (state.page + 1) as u64,
                        attempt: 1,
                        ..state
                    }
                }
            },
            _ => if outcome_retryable(outcome) && state.attempt < state.policy.max_attempts {
                SessionModel { attempt: (state.attempt + 1) as u32, ..state }
            } else {
                SessionModel { error: Some(outcome_error(outcome)), done: true, ..state }
            },
        }
    }
}

/// What the caller does after the outcome of a page is reported, for the
/// random sample `jitter`.
pub open spec fn action_after(state: SessionModel, outcome: PageModel, jitter: u64) -> FetchAction {
    let next = after_page(state, outcome);
    if next.done {
        FetchAction::Done
    } else if outcome is Page {
        FetchAction::Request { page: next.page }
    } else {
        FetchAction::RetryAfter {
            delay_ms: backoff_delay(state.policy, state.attempt, jitter) as u64,
            page: next.page,
        }
    }
}

/// The records of pages put together in order.
pub open spec fn joined(pages: Seq<Seq<RecordModel>>) -> Seq<RecordModel>
    decreases pages.len(),
{
    if pages.len() == 0 {
        Seq::empty()
    } else {
        joined(pages.drop_last()) + pages.last()
    }
}

/// The session after the first `count` of `pages` arrived one after the
/// other, the last page of all marked as the last.
pub open spec fn after_pages(state: SessionModel, pages: Seq<Seq<RecordModel>>, count: nat) -> SessionModel
    decreases count,
{
    if count == 0 {
        state
    } else {
        after_page(
            after_pages(state, pages, (count - 1) as nat),
            PageModel::Page { records: pages[count - 1], last: count == pages.len() },
        )
    }
}

/// Paging is transparent. While the pages of a window arrive, the session
/// holds their records in order and asks for the next page; when the last
/// has arrived it is done, without error, and holds the records of the whole
/// window as one sequence.
pub proof fn lemma_pages_are_joined(state: SessionModel, pages: Seq<Seq<RecordModel>>, count: nat)
    requires
        !state.done,
        count <= pages.len(),
        state.page + pages.len() <= u64::MAX,
    ensures
        ({
            let end = after_pages(state, pages, count);
            &&& end.records == state.records + joined(pages.take(count as int))
            &&& end.error == state.error
            &&& end.done == (count > 0 && count == pages.len())
            &&& !end.done ==> end.page == state.page + count
            &&& count > 0 && !end.done ==> end.attempt == 1
        }),
    decreases count,
{
    if count == 0 {
        assert(state.records + joined(pages.take(0)) =~= state.records);
    } else {
        lemma_pages_are_joined(state, pages, (count - 1) as nat);
        assert(pages.take(count as int).drop_last() =~= pages.take(count - 1));
        assert(pages.take(count as int).last() == pages[count - 1]);
        let before = after_pages(state, pages, (count - 1) as nat);
        let end = after_pages(state, pages, count);
        assert(end.records =~= state.records + joined(pages.take(count as int)));
    }
}

/// What a fetch hands over when it has ended: the records that arrived, and
/// the error if it failed.
#[derive(Debug, PartialEq, Eq)]
pub struct FetchResult {
    pub source: String,
    pub records: Vec<ClimateRecord>,
    pub error: Option<ClimateError>,
}

/// The fetch of one source for one window.
#[derive(Debug)]
pub struct FetchSession {
    source: String,
    start: String,
    end: String,
    policy: RetryPolicy,
    page: u64,
    attempt: u32,
    records: Vec<ClimateRecord>,
    error: Option<ClimateError>,
    done: bool,
}

impl View for FetchSession {
    type V = SessionModel;

    closed spec fn view(&self) -> SessionModel {
        SessionModel {
            source: self.source@,
            start: self.start@,
            end: self.end@,
            policy: self.policy,
            page: self.page,
            attempt: self.attempt,
            records: self.records.deep_view(),
            error: self.error.deep_view(),
            done: self.done,
        }
    }
}

/// What asking for a session comes to: the session at its start, or a
/// configuration error where the window is none.
pub open spec fn session_for(
    source: Seq<char>,
    start: Seq<char>,
    end: Seq<char>,
    policy: RetryPolicy,
) -> Result<SessionModel, ErrorModel> {
    if is_window(start, end) {
        Ok(fresh_session(source, start, end, policy))
    } else {
        Err(
            ErrorModel::ConfigError(
                "the window must be two calendar dates, the first not after the second"@,
            ),
        )
    }
}

impl FetchSession {
    /// Starts the fetch of `source` for the window from `start` to `end`,
    /// two calendar dates of which the first is not after the second.
    pub fn begin(source: &str, start: &str, end: &str, policy: RetryPolicy) -> (made: Result<
        FetchSession,
        ClimateError,
    >)
        ensures
            match session_for(source@, start@, end@, policy) {
                Ok(session) => made matches Ok(s) && s@ == session,
                Err(error) => made matches Err(e) && e@ == error,
            },
    {
        if !check_window(start, end) {
            return Err(
                ClimateError::ConfigError(
                    "the window must be two calendar dates, the first not after the second".to_owned(),
                ),
            );
        }
        let session = FetchSession {
            source: source.to_owned(),
            start: start.to_owned(),
            end: end.to_owned(),
            policy,
            page: 0,
            attempt: 1,
            records: Vec::new(),
            error: None,
            done: false,
        };
        assert(session.records.deep_view() =~= Seq::empty());
        Ok(session)
    }

    /// The source that is fetched.
    pub fn source(&self) -> (name: &str)
        ensures
            name@ == self@.source,
    {
        self.source.as_str()
    }

    /// The first day of the window.
    pub fn start_date(&self) -> (date: &str)
        ensures
            date@ == self@.start,
    {
        self.start.as_str()
    }

    /// The last day of the window.
    pub fn end_date(&self) -> (date: &str)
        ensures
            date@ == self@.end,
    {
        self.end.as_str()
    }

    /// Whether the fetch has ended.
    pub fn is_done(&self) -> (yes: bool)
        ensures
            yes == self@.done,
    {
        self.done
    }

    /// The number of records that have arrived.
    pub fn fetched_count(&self) -> (count: usize)
        ensures
            count == self@.records.len(),
    {
        self.records.len()
    }

    /// What the caller does now: request the current page, or take the
    /// result where the fetch has ended.
    pub fn current_action(&self) -> (action: FetchAction)
        ensures
            action == if self@.done {
                FetchAction::Done
            } else {
                FetchAction::Request { page: self@.page }
            },
    {
        if self.done {
            FetchAction::Done
        } else {
            FetchAction::Request { page: self.page }
        }
    }

    fn fail(&mut self, error: ClimateError)
        ensures
            final(self)@ == (SessionModel { error: Some(error@), done: true, ..old(self)@ }),
    {
        self.error = Some(error);
        self.done = true;
    }

    /// Reports what came of the request of the current page; `jitter` is a
    /// random sample that spreads the delay of a retry. Says what to do
    /// next.
    pub fn step(&mut self, outcome: PageOutcome, jitter: u64) -> (action: FetchAction)
        ensures
            final(self)@ == after_page(old(self)@, outcome@),
            action == action_after(old(self)@, outcome@, jitter),
    {
        if self.done {
            return FetchAction::Done;
        }
        let ghost state = self@;
        match outcome {
            PageOutcome::Page { records, last } => {
                let ghost before = self.records.deep_view();
                let ghost added = records.deep_view();
                let mut records = records;
                self.records.append(&mut records);
                assert(self.records.deep_view() =~= before + added);
                if last {
                    self.done = true;
                    FetchAction::Done
                } else if self.page == u64::MAX {
                    self.fail(
                        ClimateError::ApiError(
                            "the upstream sent more pages than can be counted".to_owned(),
                        ),
                    );
                    FetchAction::Done
                } else {
                    self.page = self.page + 1;
                    self.attempt = 1;
                    FetchAction::Request { page: self.page }
                }
            },
            PageOutcome::Status(code) => {
                if is_retryable_status(code) && self.attempt < self.policy.max_attempts {
                    self.retry(jitter)
                } else {
                    let message = push_decimal(
                        "upstream answered with status ".to_owned(),
                        code as u64,
                    );
                    self.fail(ClimateError::ApiError(message));
                    FetchAction::Done
                }
            },
            PageOutcome::Malformed(message) => {
                if self.attempt < self.policy.max_attempts {
                    self.retry(jitter)
                } else {
                    self.fail(ClimateError::ApiError(message));
                    FetchAction::Done
                }
            },
            PageOutcome::Transport(message) => {
                if self.attempt < self.policy.max_attempts {
                    self.retry(jitter)
                } else {
                    self.fail(ClimateError::NetworkError(message));
                    FetchAction::Done
                }
            },
        }
    }

    fn retry(&mut self, jitter: u64) -> (action: FetchAction)
        requires
            old(self)@.attempt < old(self)@.policy.max_attempts,
        ensures
            final(self)@ == (SessionModel {
                attempt: (old(self)@.attempt + 1) as u32,
                ..old(self)@
            }),
            action == (FetchAction::RetryAfter {
                delay_ms: backoff_delay(old(self)@.policy, old(self)@.attempt, jitter) as u64,
                page: old(self)@.page,
            }),
    {
        let delay_ms = self.policy.delay_ms(self.attempt, jitter);
        self.attempt = self.attempt + 1;
        FetchAction::RetryAfter { delay_ms, page: self.page }
    }

    /// Ends the fetch and hands over what there is: the records of the
    /// pages that arrived, and the error if the fetch failed. Records that
    /// had arrived before a failure are not lost.
    pub fn finish(self) -> (result: FetchResult)
        ensures
            result.source@ == self@.source,
            result.records.deep_view() == self@.records,
            result.error.deep_view() == self@.error,
    {
        FetchResult { source: self.source, records: self.records, error: self.error }
    }
}

} // verus!
