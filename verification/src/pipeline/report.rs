//! The report of a run: what became of each source's records.
//!
//! Every source has an accumulator of its own while it works; the
//! accumulators are merged into the report of the run, each under the name of
//! its source. What one source reports never touches what another did.

use crate::utils::counter::{add_capped, capped};
use crate::utils::error::{ClimateError, ErrorModel};
use crate::utils::text::str_eq;
use vstd::prelude::*;
use vstd::string::*;

verus! {

/// What became of the records of one source.
#[derive(Debug, PartialEq, Eq)]
pub struct SourceReport {
    pub source: String,
    /// Records that the source fetched.
    pub fetched: u64,
    /// Records that passed validation.
    pub validated: u64,
    /// Records that validation turned away.
    pub rejected: u64,
    /// Records that the warehouse took.
    pub loaded: u64,
    /// Records that were given up on the way to the warehouse.
    pub failed: u64,
    /// Whether the source failed to fetch its window, in whole or in part.
    pub window_failed: bool,
    /// Every error that concerned the source, in the order of arrival.
    pub errors: Vec<ClimateError>,
}

/// The mathematical content of a [`SourceReport`].
pub struct SourceModel {
    pub source: Seq<char>,
    pub fetched: u64,
    pub validated: u64,
    pub rejected: u64,
    pub loaded: u64,
    pub failed: u64,
    pub window_failed: bool,
    pub errors: Seq<ErrorModel>,
}

impl View for SourceReport {
    type V = SourceModel;

    open spec fn view(&self) -> SourceModel {
        SourceModel {
            source: self.source@,
            fetched: self.fetched,
            validated: self.validated,
            rejected: self.rejected,
            loaded: self.loaded,
            failed: self.failed,
            window_failed: self.window_failed,
            errors: self.errors.deep_view(),
        }
    }
}

impl DeepView for SourceReport {
    type V = SourceModel;

    open spec fn deep_view(&self) -> SourceModel {
        self@
    }
}

/// The report of a source of which nothing is known yet.
pub open spec fn blank(source: Seq<char>) -> SourceModel {
    SourceModel {
        source,
        fetched: 0,
        validated: 0,
        rejected: 0,
        loaded: 0,
        failed: 0,
        window_failed: false,
        errors: Seq::empty(),
    }
}

/// Two reports of one source put together: the counts add up, the errors of
/// the second follow those of the first, and the window has failed if it has
/// in either. The name is that of the first.
pub open spec fn combined(first: SourceModel, second: SourceModel) -> SourceModel {
    SourceModel {
        source: first.source,
        fetched: capped((first.fetched + second.fetched) as nat),
        validated: capped((first.validated + second.validated) as nat),
        rejected: capped((first.rejected + second.rejected) as nat),
        loaded: capped((first.loaded + second.loaded) as nat),
        failed: capped((first.failed + second.failed) as nat),
        window_failed: first.window_failed || second.window_failed,
        errors: first.errors + second.errors,
    }
}

fn copy_errors(errors: &Vec<ClimateError>) -> (copy: Vec<ClimateError>)
    ensures
        copy.deep_view() == errors.deep_view(),
{
    let mut copy: Vec<ClimateError> = Vec::new();
    let mut i: usize = 0;
    while i < errors.len()
        invariant
            i <= errors.len(),
            copy.len() == i,
            forall|j: int| 0 <= j < i ==> copy[j] == errors[j],
        decreases errors.len() - i,
    {
        copy.push(errors[i].clone());
        i += 1;
    }
    assert(copy.deep_view() =~= errors.deep_view());
    copy
}

impl Clone for SourceReport {
    fn clone(&self) -> (copy: Self)
        ensures
            copy@ == self@,
    {
        SourceReport {
            source: self.source.clone(),
            fetched: self.fetched,
            validated: self.validated,
            rejected: self.rejected,
            loaded: self.loaded,
            failed: self.failed,
            window_failed: self.window_failed,
            errors: copy_errors(&self.errors),
        }
    }
}

impl SourceReport {
    /// The report of a source of which nothing is known yet.
    pub fn new(source: &str) -> (report: Self)
        ensures
            report@ == blank(source@),
    {
        let report = SourceReport {
            source: source.to_owned(),
            fetched: 0,
            validated: 0,
            rejected: 0,
            loaded: 0,
            failed: 0,
            window_failed: false,
            errors: Vec::new(),
        };
        assert(report.errors.deep_view() =~= Seq::empty());
        report
    }

    /// Counts `count` records as fetched.
    pub fn record_fetched(&mut self, count: usize)
        ensures
            final(self)@ == (SourceModel {
                fetched: capped((old(self)@.fetched + count) as nat),
                ..old(self)@
            }),
    {
        self.fetched = add_capped(self.fetched, count as u64);
    }

    /// Counts one record as validated.
    pub fn record_validated(&mut self)
        ensures
            final(self)@ == (SourceModel {
                validated: capped((old(self)@.validated + 1) as nat),
                ..old(self)@
            }),
    {
        self.validated = add_capped(self.validated, 1);
    }

    /// Counts one record as rejected, for the given reason.
    pub fn record_rejected(&mut self, error: ClimateError)
        ensures
            final(self)@ == (SourceModel {
                rejected: capped((old(self)@.rejected + 1) as nat),
                errors: old(self)@.errors.push(error@),
                ..old(self)@
            }),
    {
        let ghost before = self.errors.deep_view();
        self.rejected = add_capped(self.rejected, 1);
        self.errors.push(error);
        assert(self.errors.deep_view() =~= before.push(error@));
    }

    /// Counts one record as loaded.
    pub fn record_loaded(&mut self)
        ensures
            final(self)@ == (SourceModel {
                loaded: capped((old(self)@.loaded + 1) as nat),
                ..old(self)@
            }),
    {
        self.loaded = add_capped(self.loaded, 1);
    }

    /// Counts one record as given up on the way to the warehouse, for the
    /// given reason.
    pub fn record_failed(&mut self, error: ClimateError)
        ensures
            final(self)@ == (SourceModel {
                failed: capped((old(self)@.failed + 1) as nat),
                errors: old(self)@.errors.push(error@),
                ..old(self)@
            }),
    {
        let ghost before = self.errors.deep_view();
        self.failed = add_capped(self.failed, 1);
        self.errors.push(error);
        assert(self.errors.deep_view() =~= before.push(error@));
    }

    /// Marks the window of the source as failed, for the given reason.
    pub fn record_fetch_failure(&mut self, error: ClimateError)
        ensures
            final(self)@ == (SourceModel {
                window_failed: true,
                errors: old(self)@.errors.push(error@),
                ..old(self)@
            }),
    {
        let ghost before = self.errors.deep_view();
        self.window_failed = true;
        self.errors.push(error);
        assert(self.errors.deep_view() =~= before.push(error@));
    }

    /// Takes in another report of the same source.
    pub fn absorb(&mut self, other: SourceReport)
        ensures
            final(self)@ == combined(old(self)@, other@),
    {
        let ghost before = self.errors.deep_view();
        let ghost added = other.errors.deep_view();
        self.fetched = add_capped(self.fetched, other.fetched);
        self.validated = add_capped(self.validated, other.validated);
        self.rejected = add_capped(self.rejected, other.rejected);
        self.loaded = add_capped(self.loaded, other.loaded);
        self.failed = add_capped(self.failed, other.failed);
        self.window_failed = self.window_failed || other.window_failed;
        let mut errors = other.errors;
        self.errors.append(&mut errors);
        assert(self.errors.deep_view() =~= before + added);
    }

    /// Whether the source came through without any error.
    pub fn is_clean(&self) -> (yes: bool)
        ensures
            yes == (!self@.window_failed && self@.errors.len() == 0),
    {
        !self.window_failed && self.errors.len() == 0
    }
}

/// The place of the report of `source` among the reports, if it has one: the
/// last of that name.
pub open spec fn entry_index(reports: Seq<SourceModel>, source: Seq<char>) -> Option<int>
    decreases reports.len(),
{
    if reports.len() == 0 {
        None
    } else if reports.last().source == source {
        Some(reports.len() - 1)
    } else {
        entry_index(reports.drop_last(), source)
    }
}

/// The report of `source`, if it has one.
pub open spec fn entry_of(reports: Seq<SourceModel>, source: Seq<char>) -> Option<SourceModel> {
    match entry_index(reports, source) {
        Some(at) => Some(reports[at]),
        None => None,
    }
}

/// The reports after one more is merged in: it is combined with the report
/// of its source where there is one, and added at the end where not.
pub open spec fn merged(reports: Seq<SourceModel>, more: SourceModel) -> Seq<SourceModel> {
    match entry_index(reports, more.source) {
        Some(at) => reports.update(at, combined(reports[at], more)),
        None => reports.push(more),
    }
}

/// Whether no two reports are of one source.
pub open spec fn sources_unique(reports: Seq<SourceModel>) -> bool {
    forall|i: int, j: int|
        0 <= i < j < reports.len() ==> (#[trigger] reports[i]).source != (
        #[trigger] reports[j]).source
}

/// Where `entry_index` points, and when it points nowhere.
pub proof fn lemma_entry_index(reports: Seq<SourceModel>, source: Seq<char>)
    ensures
        match entry_index(reports, source) {
            Some(at) => 0 <= at < reports.len() && reports[at].source == source && forall|k: int|
                at < k < reports.len() ==> (#[trigger] reports[k]).source != source,
            None => forall|k: int|
                0 <= k < reports.len() ==> (#[trigger] reports[k]).source != source,
        },
    decreases reports.len(),
{
    if reports.len() > 0 && reports.last().source != source {
        let rest = reports.drop_last();
        lemma_entry_index(rest, source);
        match entry_index(rest, source) {
            Some(at) => {
                assert(rest[at] == reports[at]);
                assert forall|k: int| at < k < reports.len() implies (
                #[trigger] reports[k]).source != source by {
                    if k < rest.len() {
                        assert(rest[k] == reports[k]);
                    }
                }
            },
            None => {
                assert forall|k: int| 0 <= k < reports.len() implies (
                #[trigger] reports[k]).source != source by {
                    if k < rest.len() {
                        assert(rest[k] == reports[k]);
                    }
                }
            },
        }
    }
}

/// An index at which a report of `source` stands, with none of that name
/// after it, is where `entry_index` points.
pub proof fn lemma_entry_index_is(reports: Seq<SourceModel>, source: Seq<char>, at: int)
    requires
        0 <= at < reports.len(),
        reports[at].source == source,
        forall|k: int| at < k < reports.len() ==> (#[trigger] reports[k]).source != source,
    ensures
        entry_index(reports, source) == Some(at),
    decreases reports.len(),
{
    if at < reports.len() - 1 {
        let rest = reports.drop_last();
        assert(reports[reports.len() - 1].source != source);
        assert(rest[at] == reports[at]);
        assert forall|k: int| at < k < rest.len() implies (#[trigger] rest[k]).source
            != source by {
            assert(rest[k] == reports[k]);
        }
        lemma_entry_index_is(rest, source, at);
    }
}

/// Isolation. Merging the report of one source leaves the report of every
/// other source as it was, and keeps the sources distinct; the merged source
/// shows what it showed before together with what was merged.
pub proof fn lemma_merge_is_isolated(reports: Seq<SourceModel>, more: SourceModel)
    ensures
        forall|other: Seq<char>|
            other != more.source ==> entry_of(merged(reports, more), other) == entry_of(
                reports,
                other,
            ),
        entry_of(merged(reports, more), more.source) == Some(
            match entry_of(reports, more.source) {
                Some(before) => combined(before, more),
                None => more,
            },
        ),
        sources_unique(reports) ==> sources_unique(merged(reports, more)),
{
    let after = merged(reports, more);
    lemma_entry_index(reports, more.source);
    assert forall|other: Seq<char>| other != more.source implies entry_of(after, other)
        == entry_of(reports, other) by {
        lemma_entry_index(reports, other);
        match entry_index(reports, other) {
            Some(at) => {
                assert(after[at] == reports[at]);
                assert forall|k: int| at < k < after.len() implies (
                #[trigger] after[k]).source != other by {
                    if k < reports.len() {
                        assert(reports[k].source != other);
                    }
                }
                lemma_entry_index_is(after, other, at);
            },
            None => {
                lemma_entry_index(after, other);
                match entry_index(after, other) {
                    Some(at) => {
                        if at < reports.len() {
                            assert(reports[at].source != other);
                        }
                    },
                    None => {},
                }
            },
        }
    }
    match entry_index(reports, more.source) {
        Some(at) => {
            assert forall|k: int| at < k < after.len() implies (#[trigger] after[k]).source
                != more.source by {
                assert(reports[k].source != more.source);
            }
            lemma_entry_index_is(after, more.source, at);
        },
        None => {
            lemma_entry_index_is(after, more.source, reports.len() as int);
        },
    }
    if sources_unique(reports) {
        assert forall|i: int, j: int| 0 <= i < j < after.len() implies (
        #[trigger] after[i]).source != (#[trigger] after[j]).source by {
            match entry_index(reports, more.source) {
                Some(at) => {
                    assert(reports[i].source != reports[j].source);
                },
                None => {
                    if j < reports.len() {
                        assert(reports[i].source != reports[j].source);
                    } else {
                        assert(reports[i].source != more.source);
                    }
                },
            }
        }
    }
}

/// A source whose fetch failed shows a failed window and at least one
/// error, whatever else is merged into the report of the run, while every
/// other source shows exactly what it reported.
pub proof fn lemma_failed_source_shows(
    reports: Seq<SourceModel>,
    failed: SourceModel,
    sound: SourceModel,
)
    requires
        failed.window_failed,
        failed.errors.len() > 0,
        failed.source != sound.source,
        entry_of(reports, failed.source) is None,
        entry_of(reports, sound.source) is None,
    ensures
        ({
            let report = merged(merged(reports, failed), sound);
            &&& entry_of(report, failed.source) == Some(failed)
            &&& entry_of(report, sound.source) == Some(sound)
        }),
        ({
            let report = merged(merged(reports, sound), failed);
            &&& entry_of(report, failed.source) == Some(failed)
            &&& entry_of(report, sound.source) == Some(sound)
        }),
{
    lemma_merge_is_isolated(reports, failed);
    lemma_merge_is_isolated(merged(reports, failed), sound);
    lemma_merge_is_isolated(reports, sound);
    lemma_merge_is_isolated(merged(reports, sound), failed);
}

/// The report of a run: one report per source.
#[derive(Debug)]
pub struct RunReport {
    sources: Vec<SourceReport>,
}

impl View for RunReport {
    type V = Seq<SourceModel>;

    closed spec fn view(&self) -> Seq<SourceModel> {
        self.sources.deep_view()
    }
}

impl RunReport {
    /// Whether the report is sound: no two of its reports are of one source.
    pub open spec fn wf(&self) -> bool {
        sources_unique(self@)
    }

    /// The report of a run in which nothing has happened yet.
    pub fn new() -> (report: Self)
        ensures
            report.wf(),
            report@ == Seq::<SourceModel>::empty(),
    {
        let report = RunReport { sources: Vec::new() };
        assert(report.sources.deep_view() =~= Seq::empty());
        report
    }

    /// The reports of the sources, in the order in which the sources were
    /// first heard of.
    pub fn sources(&self) -> (sources: &Vec<SourceReport>)
        ensures
            sources.deep_view() == self@,
    {
        &self.sources
    }

    fn index_of(&self, source: &str) -> (found: Option<usize>)
        ensures
            match found {
                Some(at) => entry_index(self@, source@) == Some(at as int),
                None => entry_index(self@, source@) is None,
            },
    {
        let ghost reports = self.sources.deep_view();
        let mut i: usize = self.sources.len();
        assert(reports.take(i as int) =~= reports);
        while i > 0
            invariant
                i <= self.sources.len(),
                reports == self.sources.deep_view(),
                entry_index(reports, source@) == entry_index(reports.take(i as int), source@),
            decreases i,
        {
            i -= 1;
            assert(reports.take(i + 1).last() == reports[i as int]);
            assert(reports.take(i + 1).drop_last() =~= reports.take(i as int));
            if str_eq(self.sources[i].source.as_str(), source) {
                return Some(i);
            }
        }
        assert(reports.take(0).len() == 0);
        None
    }

    /// The report of `source`, if the run has heard of it.
    pub fn entry(&self, source: &str) -> (found: Option<&SourceReport>)
        ensures
            found.deep_view() == entry_of(self@, source@),
    {
        match self.index_of(source) {
            Some(at) => {
                proof {
                    lemma_entry_index(self@, source@);
                }
                Some(&self.sources[at])
            },
            None => None,
        }
    }

    /// Merges the report of one source into the report of the run. Nothing
    /// that another source reported is touched.
    pub fn merge(&mut self, more: SourceReport)
        requires
            old(self).wf(),
        ensures
            final(self).wf(),
            final(self)@ == merged(old(self)@, more@),
            forall|other: Seq<char>|
                other != more@.source ==> entry_of(final(self)@, other) == entry_of(
                    old(self)@,
                    other,
                ),
    {
        proof {
            lemma_merge_is_isolated(self@, more@);
            lemma_entry_index(self@, more@.source);
        }
        let ghost before = self.sources.deep_view();
        match self.index_of(more.source.as_str()) {
            Some(at) => {
                let mut entry = self.sources[at].clone();
                entry.absorb(more);
                self.sources.set(at, entry);
                assert(self.sources.deep_view() =~= before.update(
                    at as int,
                    combined(before[at as int], more@),
                ));
            },
            None => {
                self.sources.push(more);
                assert(self.sources.deep_view() =~= before.push(more@));
            },
        }
    }

    /// Whether every source came through without any error.
    pub fn is_clean(&self) -> (yes: bool)
        ensures
            yes == (forall|i: int|
                0 <= i < self@.len() ==> !(#[trigger] self@[i]).window_failed && self@[i].errors.len()
                    == 0),
    {
        let ghost reports = self.sources.deep_view();
        let mut i: usize = 0;
        while i < self.sources.len()
            invariant
                i <= self.sources.len(),
                reports == self.sources.deep_view(),
                forall|k: int|
                    0 <= k < i ==> !(#[trigger] reports[k]).window_failed && reports[k].errors.len()
                        == 0,
            decreases self.sources.len() - i,
        {
            if !self.sources[i].is_clean() {
                assert(self@[i as int] == self.sources[i as int]@);
                assert(self@[i as int].window_failed || self@[i as int].errors.len() != 0);
                return false;
            }
            i += 1;
        }
        true
    }
}

} // verus!
