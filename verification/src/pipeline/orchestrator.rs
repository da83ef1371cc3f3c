//! The orchestrator of a run.
//!
//! A run drives several sources over one time window. The orchestrator is a
//! state machine: it decides which source starts next, so that no more than
//! a set number work at once, takes in the report of each source when it has
//! ended, and knows when the run is complete. The caller does the fetching
//! and the loading and reports back. The failure of one source is recorded
//! under its name and changes nothing for the others.

use crate::bigquery::loader::{DeadLetter, DeadLetterModel};
use crate::bigquery::schema::{SchemaModel, TableSchema};
use crate::bigquery::validate::{
    validate_against, validation_outcome, ValidatedModel, ValidatedRecord,
};
use crate::datasources::record::{record_key, ClimateRecord, RecordModel};
use crate::pipeline::report::{
    blank, entry_of, lemma_merge_is_isolated, merged, sources_unique, RunReport, SourceModel,
    SourceReport,
};
use crate::utils::counter::capped;
use crate::utils::error::{ClimateError, ErrorModel, IssueModel, RejectReason, ValidationIssue};
use crate::utils::text::str_eq;
use vstd::prelude::*;
use vstd::string::*;

verus! {

/// What validation makes of a record that `source` fetched. A record must
/// name the source that fetched it; one that does is validated for the table.
pub open spec fn fetched_outcome(
    schema: SchemaModel,
    source: Seq<char>,
    record: RecordModel,
    stamp: Seq<char>,
) -> Result<ValidatedModel, IssueModel> {
    if record.source_id != source {
        Err(
            IssueModel {
                record: record_key(
                    record.source_id,
                    record.timestamp,
                    record.latitude,
                    record.longitude,
                ),
                field: "source_id"@,
                reason: RejectReason::WrongSource,
            },
        )
    } else {
        validation_outcome(schema, record, stamp)
    }
}

/// The validated record that a record makes, if it passes.
pub open spec fn accepted_of(schema: SchemaModel, source: Seq<char>, stamp: Seq<char>) -> spec_fn(
    RecordModel,
) -> Option<ValidatedModel> {
    |record: RecordModel|
        match fetched_outcome(schema, source, record, stamp) {
            Ok(valid) => Some(valid),
            Err(_) => None,
        }
}

/// The error that a record makes, if it does not pass.
pub open spec fn rejected_of(schema: SchemaModel, source: Seq<char>, stamp: Seq<char>) -> spec_fn(
    RecordModel,
) -> Option<ErrorModel> {
    |record: RecordModel|
        match fetched_outcome(schema, source, record, stamp) {
            Ok(_) => None,
            Err(defect) => Some(ErrorModel::ValidationError(defect)),
        }
}

/// The tally of a source after a fetch of `records` was validated: all are
/// counted as fetched, each as validated or as rejected, and the errors of
/// the rejected are noted in order.
pub open spec fn after_validation(
    tally: SourceModel,
    schema: SchemaModel,
    records: Seq<RecordModel>,
    stamp: Seq<char>,
) -> SourceModel {
    let valid = records.filter_map(accepted_of(schema, tally.source, stamp));
    let errors = records.filter_map(rejected_of(schema, tally.source, stamp));
    SourceModel {
        fetched: capped((tally.fetched + records.len()) as nat),
        validated: capped((tally.validated + valid.len()) as nat),
        rejected: capped((tally.rejected + errors.len()) as nat),
        errors: tally.errors + errors,
        ..tally
    }
}

/// Validates what the source of `tally` fetched for the table of `schema`.
/// The records that pass come back in the order in which they were fetched;
/// those that do not are left out, counted as rejected and noted with their
/// errors in the tally. Every record is one or the other.
pub fn validate_all(
    schema: &TableSchema,
    records: &Vec<ClimateRecord>,
    processing_timestamp: &str,
    tally: &mut SourceReport,
) -> (valid: Vec<ValidatedRecord>)
    ensures
        valid.deep_view() == records.deep_view().filter_map(
            accepted_of(schema@, old(tally)@.source, processing_timestamp@),
        ),
        final(tally)@ == after_validation(
            old(tally)@,
            schema@,
            records.deep_view(),
            processing_timestamp@,
        ),
        valid.len() + records.deep_view().filter_map(
            rejected_of(schema@, old(tally)@.source, processing_timestamp@),
        ).len() == records.len(),
{
    let ghost all = records.deep_view();
    let ghost start = tally@;
    let ghost accept = accepted_of(schema@, start.source, processing_timestamp@);
    let ghost reject = rejected_of(schema@, start.source, processing_timestamp@);
    let mut valid: Vec<ValidatedRecord> = Vec::new();
    let mut i: usize = 0;
    assert(all.take(0).len() == 0);
    assert(start.errors + all.take(0).filter_map(reject) =~= start.errors);
    while i < records.len()
        invariant
            i <= records.len(),
            all == records.deep_view(),
            accept == accepted_of(schema@, start.source, processing_timestamp@),
            reject == rejected_of(schema@, start.source, processing_timestamp@),
            valid.deep_view() == all.take(i as int).filter_map(accept),
            valid.len() + all.take(i as int).filter_map(reject).len() == i,
            tally@ == (SourceModel {
                validated: capped((start.validated + valid.len()) as nat),
                rejected: capped(
                    (start.rejected + all.take(i as int).filter_map(reject).len()) as nat,
                ),
                errors: start.errors + all.take(i as int).filter_map(reject),
                ..start
            }),
        decreases records.len() - i,
    {
        proof {
            all.lemma_filter_map_take_succ(accept, i as int);
            all.lemma_filter_map_take_succ(reject, i as int);
        }
        let ghost valid_before = valid.deep_view();
        let outcome = if records[i].source_id == tally.source {
            validate_against(schema, &records[i], processing_timestamp)
        } else {
            Err(
                ValidationIssue {
                    record: records[i].record_id(),
                    field: "source_id".to_owned(),
                    reason: RejectReason::WrongSource,
                },
            )
        };
        match outcome {
            Ok(record) => {
                valid.push(record);
                tally.record_validated();
                assert(valid.deep_view() =~= valid_before.push(record@));
            },
            Err(defect) => {
                tally.record_rejected(ClimateError::ValidationError(defect));
                assert(tally@.errors =~= start.errors + all.take(i + 1).filter_map(reject));
            },
        }
        i += 1;
    }
    assert(all.take(i as int) =~= all);
    tally.record_fetched(records.len());
    valid
}

/// The mathematical content of an [`Orchestrator`].
pub struct OrchestratorModel {
    /// The largest number of sources that work at once.
    pub max_concurrency: nat,
    /// The sources that have not started, in the order in which they will.
    pub waiting: Seq<Seq<char>>,
    /// The sources that are at work.
    pub running: Seq<Seq<char>>,
    /// What has been reported so far.
    pub report: Seq<SourceModel>,
    pub cancelled: bool,
}

/// Whether a state is one that an orchestrator can be in: no more sources
/// are at work than may be, and no source is named twice.
pub open spec fn orchestrator_wf(state: OrchestratorModel) -> bool {
    &&& state.max_concurrency >= 1
    &&& state.running.len() <= state.max_concurrency
    &&& (state.waiting + state.running).no_duplicates()
    &&& sources_unique(state.report)
}

/// The state after the next source was asked for: where the run is not
/// cancelled, a source waits and fewer are at work than may be, the first
/// that waits is at work.
pub open spec fn after_start(state: OrchestratorModel) -> OrchestratorModel {
    if may_start(state) {
        OrchestratorModel {
            waiting: state.waiting.drop_first(),
            running: state.running.push(state.waiting[0]),
            ..state
        }
    } else {
        state
    }
}

/// Whether a source may start.
pub open spec fn may_start(state: OrchestratorModel) -> bool {
    !state.cancelled && state.waiting.len() > 0 && state.running.len() < state.max_concurrency
}

/// The state after a source has ended with the report `tally`: it is no
/// longer at work and its report is merged into that of the run. A report
/// of a source that is not at work changes nothing.
pub open spec fn after_finish(state: OrchestratorModel, tally: SourceModel) -> OrchestratorModel {
    if state.running.contains(tally.source) {
        OrchestratorModel {
            running: state.running.remove(state.running.index_of(tally.source)),
            report: merged(state.report, tally),
            ..state
        }
    } else {
        state
    }
}

/// The report of one record that the warehouse took.
pub open spec fn one_loaded(source: Seq<char>) -> SourceModel {
    SourceModel { loaded: 1, ..blank(source) }
}

/// The report of one record that was given up on the way to the warehouse.
pub open spec fn one_failed(source: Seq<char>, error: ErrorModel) -> SourceModel {
    SourceModel { failed: 1, errors: seq![error], ..blank(source) }
}

/// The report after the records that the warehouse took are counted, each
/// under its source.
pub open spec fn with_loaded(report: Seq<SourceModel>, loaded: Seq<ValidatedModel>) -> Seq<SourceModel>
    decreases loaded.len(),
{
    if loaded.len() == 0 {
        report
    } else {
        merged(with_loaded(report, loaded.drop_last()), one_loaded(loaded.last().source_id))
    }
}

/// The report after the records that were given up are counted, each under
/// its source and with its error.
pub open spec fn with_failed(report: Seq<SourceModel>, dead: Seq<DeadLetterModel>) -> Seq<SourceModel>
    decreases dead.len(),
{
    if dead.len() == 0 {
        report
    } else {
        merged(
            with_failed(report, dead.drop_last()),
            one_failed(dead.last().record.source_id, dead.last().error),
        )
    }
}

/// Drives the sources of one run.
#[derive(Debug)]
pub struct Orchestrator {
    max_concurrency: usize,
    waiting: Vec<String>,
    running: Vec<String>,
    report: RunReport,
    cancelled: bool,
}

impl View for Orchestrator {
    type V = OrchestratorModel;

    closed spec fn view(&self) -> OrchestratorModel {
        OrchestratorModel {
            max_concurrency: self.max_concurrency as nat,
            waiting: self.waiting.deep_view(),
            running: self.running.deep_view(),
            report: self.report@,
            cancelled: self.cancelled,
        }
    }
}

fn has_duplicates(names: &Vec<String>) -> (yes: bool)
    ensures
        yes == !names.deep_view().no_duplicates(),
{
    let ghost all = names.deep_view();
    let mut i: usize = 0;
    while i < names.len()
        invariant
            i <= names.len(),
            all == names.deep_view(),
            forall|a: int, b: int| 0 <= a < b < i ==> all[a] != all[b],
        decreases names.len() - i,
    {
        let mut j: usize = 0;
        while j < i
            invariant
                j <= i < names.len(),
                all == names.deep_view(),
                forall|a: int| 0 <= a < j ==> all[a] != all[i as int],
            decreases i - j,
        {
            if names[j] == names[i] {
                assert(all[j as int] == all[i as int]);
                return true;
            }
            j += 1;
        }
        i += 1;
    }
    assert forall|a: int, b: int| 0 <= a < all.len() && 0 <= b < all.len() && a != b implies all[a]
        != all[b] by {
        if a < b {
            assert(all[a] != all[b]);
        } else {
            assert(all[b] != all[a]);
        }
    }
    false
}

fn position(names: &Vec<String>, name: &str) -> (found: Option<usize>)
    ensures
        match found {
            Some(at) => at < names.len() && names.deep_view()[at as int] == name@,
            None => !names.deep_view().contains(name@),
        },
{
    let ghost all = names.deep_view();
    let mut i: usize = 0;
    while i < names.len()
        invariant
            i <= names.len(),
            all == names.deep_view(),
            forall|k: int| 0 <= k < i ==> all[k] != name@,
        decreases names.len() - i,
    {
        if str_eq(names[i].as_str(), name) {
            return Some(i);
        }
        i += 1;
    }
    None
}

impl Orchestrator {
    /// Whether the orchestrator is in a state that one can be in. Every
    /// orchestrator that this library hands out is, and stays so.
    pub open spec fn wf(&self) -> bool {
        orchestrator_wf(self@)
    }

    /// An orchestrator for the given sources, of which no more than
    /// `max_concurrency` work at once. It is a configuration error to allow
    /// no source to work or to name a source twice.
    pub fn new(sources: Vec<String>, max_concurrency: usize) -> (made: Result<Self, ClimateError>)
        ensures
            made is Ok <==> max_concurrency >= 1 && sources.deep_view().no_duplicates(),
            made matches Ok(orchestrator) ==> orchestrator.wf() && orchestrator@ == (
            OrchestratorModel {
                max_concurrency: max_concurrency as nat,
                waiting: sources.deep_view(),
                running: Seq::empty(),
                report: Seq::empty(),
                cancelled: false,
            }),
            made matches Err(error) ==> error@ == if max_concurrency < 1 {
                ErrorModel::ConfigError("at least one source must be allowed to work"@)
            } else {
                ErrorModel::ConfigError("a source is named twice"@)
            },
    {
        if max_concurrency < 1 {
            return Err(
                ClimateError::ConfigError("at least one source must be allowed to work".to_owned()),
            );
        }
        if has_duplicates(&sources) {
            return Err(ClimateError::ConfigError("a source is named twice".to_owned()));
        }
        let orchestrator = Orchestrator {
            max_concurrency,
            waiting: sources,
            running: Vec::new(),
            report: RunReport::new(),
            cancelled: false,
        };
        assert(orchestrator.running.deep_view() =~= Seq::empty());
        assert(orchestrator.waiting.deep_view() + orchestrator.running.deep_view()
            =~= orchestrator.waiting.deep_view());
        Ok(orchestrator)
    }

    /// The number of sources that are at work.
    pub fn running_count(&self) -> (count: usize)
        ensures
            count == self@.running.len(),
    {
        self.running.len()
    }

    /// The number of sources that have not started.
    pub fn waiting_count(&self) -> (count: usize)
        ensures
            count == self@.waiting.len(),
    {
        self.waiting.len()
    }

    /// Whether the run was cancelled.
    pub fn is_cancelled(&self) -> (yes: bool)
        ensures
            yes == self@.cancelled,
    {
        self.cancelled
    }

    /// What has been reported so far.
    pub fn report(&self) -> (report: &RunReport)
        ensures
            report@ == self@.report,
    {
        &self.report
    }

    /// The source that starts next, if one may: the first that waits, where
    /// the run is not cancelled and fewer sources are at work than may be.
    pub fn start_next(&mut self) -> (source: Option<String>)
        requires
            old(self).wf(),
        ensures
            final(self).wf(),
            final(self)@ == after_start(old(self)@),
            source.deep_view() == if may_start(old(self)@) {
                Some(old(self)@.waiting[0])
            } else {
                None
            },
    {
        if self.cancelled || self.waiting.len() == 0 || self.running.len() >= self.max_concurrency {
            return None;
        }
        let ghost waiting = self.waiting.deep_view();
        let ghost running = self.running.deep_view();
        let source = self.waiting.remove(0);
        self.running.push(source.clone());
        proof {
            let waiting_after = self.waiting.deep_view();
            let running_after = self.running.deep_view();
            assert(waiting_after =~= waiting.drop_first());
            assert(running_after =~= running.push(waiting[0]));
            let before = waiting + running;
            let after = waiting_after + running_after;
            assert forall|a: int, b: int| 0 <= a < after.len() && 0 <= b < after.len() && a
                != b implies after[a] != after[b] by {
                let from = |k: int|
                    if k < waiting_after.len() {
                        k + 1
                    } else if k < after.len() - 1 {
                        k + 1
                    } else {
                        0
                    };
                assert(after[a] == before[from(a)]);
                assert(after[b] == before[from(b)]);
            }
        }
        Some(source)
    }

    /// Takes in the report of a source that has ended, in success or in
    /// failure. The source is no longer at work; what it reported stands
    /// under its name, and nothing changes for any other source. Says
    /// whether the source was at work; if it was not, nothing changes.
    pub fn finish(&mut self, tally: SourceReport) -> (known: bool)
        requires
            old(self).wf(),
        ensures
            final(self).wf(),
            final(self)@ == after_finish(old(self)@, tally@),
            known == old(self)@.running.contains(tally@.source),
            final(self)@.waiting == old(self)@.waiting,
            final(self)@.cancelled == old(self)@.cancelled,
            forall|other: Seq<char>|
                other != tally@.source ==> entry_of(final(self)@.report, other) == entry_of(
                    old(self)@.report,
                    other,
                ),
            forall|other: Seq<char>|
                other != tally@.source ==> final(self)@.running.contains(other) == old(
                    self,
                )@.running.contains(other),
    {
        let ghost waiting = self.waiting.deep_view();
        let ghost running = self.running.deep_view();
        match position(&self.running, tally.source.as_str()) {
            None => false,
            Some(at) => {
                proof {
                    assert((waiting + running)[waiting.len() + at] == running[at as int]);
                    assert forall|k: int| 0 <= k < running.len() && k != at implies running[k]
                        != tally@.source by {
                        assert((waiting + running)[waiting.len() + k] == running[k]);
                    }
                    assert(running.index_of(tally@.source) == at);
                    lemma_merge_is_isolated(self@.report, tally@);
                }
                let _ = self.running.remove(at);
                self.report.merge(tally);
                proof {
                    let running_after = self.running.deep_view();
                    assert(running_after =~= running.remove(at as int));
                    let before = waiting + running;
                    let after = waiting + running_after;
                    assert forall|a: int, b: int| 0 <= a < after.len() && 0 <= b < after.len()
                        && a != b implies after[a] != after[b] by {
                        let from = |k: int|
                            if k < waiting.len() + at {
                                k
                            } else {
                                k + 1
                            };
                        assert(after[a] == before[from(a)]);
                        assert(after[b] == before[from(b)]);
                    }
                    assert forall|other: Seq<char>| other != tally@.source implies running_after.contains(
                        other,
                    ) == running.contains(other) by {
                        if running.contains(other) {
                            let k = running.index_of(other);
                            if k < at {
                                assert(running_after[k] == other);
                            } else {
                                assert(running_after[k - 1] == other);
                            }
                        }
                        if running_after.contains(other) {
                            let k = running_after.index_of(other);
                            if k < at {
                                assert(running[k] == other);
                            } else {
                                assert(running[k + 1] == other);
                            }
                        }
                    }
                }
                true
            },
        }
    }

    /// Counts the records of a settled batch, each under its source: those
    /// that the warehouse took as loaded, those that were given up as failed
    /// with their errors.
    pub fn record_settlement(&mut self, loaded: &Vec<ValidatedRecord>, dead: &Vec<DeadLetter>)
        requires
            old(self).wf(),
        ensures
            final(self).wf(),
            final(self)@ == (OrchestratorModel {
                report: with_failed(
                    with_loaded(old(self)@.report, loaded.deep_view()),
                    dead.deep_view(),
                ),
                ..old(self)@
            }),
    {
        let ghost start = self@.report;
        let ghost taken = loaded.deep_view();
        let ghost lost = dead.deep_view();
        let mut i: usize = 0;
        assert(taken.take(0).len() == 0);
        while i < loaded.len()
            invariant
                i <= loaded.len(),
                taken == loaded.deep_view(),
                self.report.wf(),
                self@ == (OrchestratorModel {
                    report: with_loaded(start, taken.take(i as int)),
                    ..old(self)@
                }),
            decreases loaded.len() - i,
        {
            assert(taken.take(i + 1).drop_last() =~= taken.take(i as int));
            assert(taken.take(i + 1).last() == taken[i as int]);
            let mut one = SourceReport::new(loaded[i].source_id.as_str());
            one.record_loaded();
            self.report.merge(one);
            i += 1;
        }
        assert(taken.take(i as int) =~= taken);
        let ghost middle = self@.report;
        let mut j: usize = 0;
        assert(lost.take(0).len() == 0);
        while j < dead.len()
            invariant
                j <= dead.len(),
                lost == dead.deep_view(),
                self.report.wf(),
                self@ == (OrchestratorModel {
                    report: with_failed(middle, lost.take(j as int)),
                    ..old(self)@
                }),
            decreases dead.len() - j,
        {
            assert(lost.take(j + 1).drop_last() =~= lost.take(j as int));
            assert(lost.take(j + 1).last() == lost[j as int]);
            let mut one = SourceReport::new(dead[j].record.source_id.as_str());
            one.record_failed(dead[j].error.clone());
            assert(one@.errors =~= seq![lost[j as int].error]);
            self.report.merge(one);
            j += 1;
        }
        assert(lost.take(j as int) =~= lost);
    }

    /// Cancels the run: no further source starts. The sources that are at
    /// work end in their own time and report as ever.
    pub fn cancel(&mut self)
        requires
            old(self).wf(),
        ensures
            final(self).wf(),
            final(self)@ == (OrchestratorModel { cancelled: true, ..old(self)@ }),
    {
        self.cancelled = true;
    }

    /// Whether the run is complete: every source has ended, none waits to
    /// start unless the run was cancelled, and the loader owns nothing any
    /// more.
    pub fn is_complete(&self, loader_idle: bool) -> (yes: bool)
        ensures
            yes == (loader_idle && self@.running.len() == 0 && (self@.waiting.len() == 0
                || self@.cancelled)),
    {
        loader_idle && self.running.len() == 0 && (self.waiting.len() == 0 || self.cancelled)
    }

    /// Ends the run and hands out its report.
    pub fn into_report(self) -> (report: RunReport)
        requires
            self.wf(),
        ensures
            report.wf(),
            report@ == self@.report,
    {
        self.report
    }
}

} // verus!
