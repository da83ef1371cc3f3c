//! Delivery of validated records to the warehouse.
//!
//! The loader is a state machine. It accepts records into a bounded queue,
//! forms batches from the front of the queue, and settles a batch when the
//! caller reports what the warehouse said about it. The caller performs the
//! submission itself and may wait in between; the loader decides what is
//! submitted, when it is tried again, and what is given up.
//!
//! A record stays in the queue from acceptance until its batch is settled, so
//! the capacity of the queue bounds everything that the loader owns. When the
//! queue is full a delivery hands the record back, and the caller waits.

use crate::bigquery::validate::{ValidatedModel, ValidatedRecord};
use crate::models::value::{FieldValue, FieldsModel, ValueModel};
use crate::utils::counter::{add_capped, capped};
use crate::utils::error::{ClimateError, ErrorModel};
use crate::utils::retry::{backoff_delay, is_retryable_status, status_retryable, RetryPolicy};
use crate::utils::text::str_eq;
use vstd::prelude::*;
use vstd::string::*;
use vstd::utf8::encode_utf8;

verus! {

/// The limits within which a loader works.
#[derive(Clone, Copy, Debug, PartialEq, Eq, Structural)]
pub struct LoaderConfig {
    /// The largest number of records in a batch; at least 1.
    pub batch_size: usize,
    /// The largest number of bytes in a batch of more than one record.
    pub max_batch_bytes: u64,
    /// How long a record may wait in the queue before a batch is due, in ms.
    pub flush_interval_ms: u64,
    /// The largest number of records that the loader owns at once; at least 1.
    pub queue_capacity: usize,
    /// How a failed submission is tried again.
    pub retry: RetryPolicy,
}

/// Whether the limits make sense: a batch and the queue hold at least one
/// record, and a submission is attempted at least once.
pub open spec fn config_valid(config: LoaderConfig) -> bool {
    config.batch_size >= 1 && config.queue_capacity >= 1 && config.retry.max_attempts >= 1
}

/// The mathematical content of a [`DataLoader`].
pub struct LoaderModel {
    pub config: LoaderConfig,
    /// The table that the loader delivers to.
    pub table_name: Seq<char>,
    /// The records that were accepted and are not settled yet, oldest first.
    pub queue: Seq<ValidatedModel>,
    /// When each record of the queue was accepted, in ms.
    pub accepted_at: Seq<u64>,
    /// How many records at the front of the queue are in the batch that
    /// awaits the warehouse's answer; 0 when no batch does.
    pub in_flight: nat,
    /// How many times that batch has been submitted.
    pub attempt: u32,
    /// Whether the next batch is due at once.
    pub urgent: bool,
    /// Whether the run was cancelled.
    pub cancelled: bool,
}

/// Whether a state is one that a loader can be in.
pub open spec fn loader_wf(state: LoaderModel) -> bool {
    &&& config_valid(state.config)
    &&& state.queue.len() <= state.config.queue_capacity
    &&& state.accepted_at.len() == state.queue.len()
    &&& state.in_flight <= state.queue.len()
    &&& state.in_flight <= state.config.batch_size
    &&& (state.in_flight == 0 <==> state.attempt == 0)
    &&& state.attempt <= state.config.retry.max_attempts
    &&& forall|i: int|
        0 <= i < state.queue.len() ==> (#[trigger] state.queue[i]).table_name == state.table_name
}

/// What a delivery comes to.
#[derive(Clone, Copy, Debug, PartialEq, Eq, Structural)]
pub enum DeliveryKind {
    /// The record was taken into the queue.
    Accepted,
    /// The queue is full: the caller waits and delivers again.
    Full,
    /// The run was cancelled: nothing more is taken.
    Closed,
    /// The record was validated for another table.
    WrongTable,
}

/// What a delivery comes to; a record that was not taken is handed back.
#[derive(Debug, PartialEq, Eq)]
pub enum Delivery {
    Accepted,
    Full(ValidatedRecord),
    Closed(ValidatedRecord),
    WrongTable(ValidatedRecord),
}

impl Delivery {
    /// What the delivery came to.
    pub open spec fn kind(&self) -> DeliveryKind {
        match self {
            Delivery::Accepted => DeliveryKind::Accepted,
            Delivery::Full(_) => DeliveryKind::Full,
            Delivery::Closed(_) => DeliveryKind::Closed,
            Delivery::WrongTable(_) => DeliveryKind::WrongTable,
        }
    }

    /// The record that was handed back, if one was.
    pub open spec fn returned(&self) -> Option<ValidatedModel> {
        match self {
            Delivery::Accepted => None,
            Delivery::Full(record) => Some(record@),
            Delivery::Closed(record) => Some(record@),
            Delivery::WrongTable(record) => Some(record@),
        }
    }

    /// Whether the record was taken.
    pub fn is_accepted(&self) -> (yes: bool)
        ensures
            yes == (self.kind() == DeliveryKind::Accepted),
    {
        match self {
            Delivery::Accepted => true,
            _ => false,
        }
    }
}

/// What delivering `record` to a loader in `state` comes to.
pub open spec fn delivery_kind(state: LoaderModel, record: ValidatedModel) -> DeliveryKind {
    if state.cancelled {
        DeliveryKind::Closed
    } else if record.table_name != state.table_name {
        DeliveryKind::WrongTable
    } else if state.queue.len() >= state.config.queue_capacity {
        DeliveryKind::Full
    } else {
        DeliveryKind::Accepted
    }
}

/// The state after delivering `record` at the time `now`: the record is at
/// the back of the queue if it was accepted, and nothing has changed if not.
pub open spec fn after_deliver(state: LoaderModel, record: ValidatedModel, now: u64) -> LoaderModel {
    if delivery_kind(state, record) == DeliveryKind::Accepted {
        LoaderModel {
            queue: state.queue.push(record),
            accepted_at: state.accepted_at.push(now),
            ..state
        }
    } else {
        state
    }
}

/// The state after delivering `records` one after the other at the time
/// `now`, each to the state that the one before it left.
pub open spec fn after_deliveries(state: LoaderModel, records: Seq<ValidatedModel>, now: u64) -> LoaderModel
    decreases records.len(),
{
    if records.len() == 0 {
        state
    } else {
        after_deliver(after_deliveries(state, records.drop_last(), now), records.last(), now)
    }
}

/// How many more records the queue can take.
pub open spec fn free_slots(state: LoaderModel) -> nat {
    if state.queue.len() >= state.config.queue_capacity {
        0
    } else {
        (state.config.queue_capacity - state.queue.len()) as nat
    }
}

/// Whether all records were validated for the table `table_name`.
pub open spec fn all_for_table(records: Seq<ValidatedModel>, table_name: Seq<char>) -> bool {
    forall|i: int| 0 <= i < records.len() ==> (#[trigger] records[i]).table_name == table_name
}

/// Backpressure. Of records delivered one after the other to a loader while
/// no batch is settled, those for which the queue has room are accepted, in
/// order, and every one after them is refused and changes nothing: the queue
/// never holds more than its capacity, and no record is dropped or buffered
/// beyond it.
pub proof fn lemma_backpressure(state: LoaderModel, records: Seq<ValidatedModel>, now: u64)
    requires
        loader_wf(state),
        !state.cancelled,
        all_for_table(records, state.table_name),
    ensures
        ({
            let end = after_deliveries(state, records, now);
            let taken = if records.len() <= free_slots(state) {
                records.len()
            } else {
                free_slots(state)
            };
            &&& loader_wf(end)
            &&& end.queue == state.queue + records.take(taken as int)
            &&& end.queue.len() <= state.config.queue_capacity
            &&& end == LoaderModel { queue: end.queue, accepted_at: end.accepted_at, ..state }
            &&& forall|extra: ValidatedModel|
                records.len() >= free_slots(state) && extra.table_name == state.table_name ==> {
                    &&& delivery_kind(end, extra) == DeliveryKind::Full
                    &&& after_deliver(end, extra, now) == end
                }
        }),
    decreases records.len(),
{
    if records.len() == 0 {
        assert(state.queue + records.take(0) =~= state.queue);
    } else {
        let earlier = records.drop_last();
        lemma_backpressure(state, earlier, now);
        let before = after_deliveries(state, earlier, now);
        let end = after_deliver(before, records.last(), now);
        assert(records.last().table_name == state.table_name);
        if earlier.len() < free_slots(state) {
            assert(earlier.take(earlier.len() as int) =~= earlier);
            assert(records.take(records.len() as int) =~= records);
            assert(end.queue =~= state.queue + records.take(records.len() as int));
        } else {
            assert(records.take(free_slots(state) as int) =~= earlier.take(
                free_slots(state) as int,
            ));
        }
    }
}

/// The number of bytes that a text takes.
pub open spec fn text_bytes(text: Seq<char>) -> nat {
    (encode_utf8(text).len() as usize) as nat
}

/// The number of bytes that a value is counted with.
pub open spec fn value_bytes(value: ValueModel) -> nat {
    match value {
        ValueModel::Null => 4,
        ValueModel::Bool(_) => 5,
        ValueModel::Integer(_) => 8,
        ValueModel::Float(_) => 8,
        ValueModel::Text(text) => text_bytes(text),
    }
}

/// The number of bytes that a row is counted with: those of its names and of
/// its values.
pub open spec fn row_bytes(row: FieldsModel) -> nat
    decreases row.len(),
{
    if row.len() == 0 {
        0
    } else {
        row_bytes(row.drop_last()) + text_bytes(row.last().0) + value_bytes(row.last().1)
    }
}

/// The number of bytes of the first `count` records together.
pub open spec fn prefix_bytes(records: Seq<ValidatedModel>, count: nat) -> nat
    decreases count,
{
    if count == 0 || count > records.len() {
        0
    } else {
        prefix_bytes(records, (count - 1) as nat) + row_bytes(records[count - 1].row)
    }
}

impl ValidatedRecord {
    /// The number of bytes that the record's row is counted with, or the
    /// largest `u64` where it is larger.
    pub fn size_bytes(&self) -> (size: u64)
        ensures
            size == capped(row_bytes(self@.row)),
    {
        let ghost row = self.row.deep_view();
        let mut size: u64 = 0;
        let mut i: usize = 0;
        assert(row.take(0).len() == 0);
        while i < self.row.len()
            invariant
                i <= self.row.len(),
                row == self.row.deep_view(),
                size == capped(row_bytes(row.take(i as int))),
            decreases self.row.len() - i,
        {
            assert(row.take(i + 1).drop_last() =~= row.take(i as int));
            assert(row.take(i + 1).last() == row[i as int]);
            let name_size = self.row[i].0.as_str().len() as u64;
            let value_size: u64 = match &self.row[i].1 {
                FieldValue::Null => 4,
                FieldValue::Bool(_) => 5,
                FieldValue::Integer(_) => 8,
                FieldValue::Float(_) => 8,
                FieldValue::Text(text) => text.as_str().len() as u64,
            };
            size = add_capped(add_capped(size, name_size), value_size);
            i += 1;
        }
        assert(row.take(i as int) =~= row);
        size
    }
}

/// An ordered sequence of validated records on its way to one table. A batch
/// is formed once and never changed; a submission that is tried again gets a
/// new batch with the same records.
#[derive(Debug, PartialEq, Eq)]
pub struct LoadBatch {
    table_name: String,
    records: Vec<ValidatedRecord>,
    attempt: u32,
}

/// The mathematical content of a [`LoadBatch`].
pub struct BatchModel {
    pub table_name: Seq<char>,
    pub records: Seq<ValidatedModel>,
    /// The number of this submission of the records, from 1.
    pub attempt: u32,
}

impl View for LoadBatch {
    type V = BatchModel;

    closed spec fn view(&self) -> BatchModel {
        BatchModel {
            table_name: self.table_name@,
            records: self.records.deep_view(),
            attempt: self.attempt,
        }
    }
}

impl DeepView for LoadBatch {
    type V = BatchModel;

    open spec fn deep_view(&self) -> BatchModel {
        self@
    }
}

impl LoadBatch {
    /// The table that the batch goes to.
    pub fn table_name(&self) -> (name: &str)
        ensures
            name@ == self@.table_name,
    {
        self.table_name.as_str()
    }

    /// The records of the batch, in order.
    pub fn records(&self) -> (records: &Vec<ValidatedRecord>)
        ensures
            records.deep_view() == self@.records,
    {
        &self.records
    }

    /// The number of this submission of the records, from 1.
    pub fn attempt(&self) -> (attempt: u32)
        ensures
            attempt == self@.attempt,
    {
        self.attempt
    }

    /// The number of records in the batch.
    pub fn len(&self) -> (count: usize)
        ensures
            count == self@.records.len(),
    {
        self.records.len()
    }
}

/// Whether the first `count` records of the queue may form a batch: they are
/// no more than a batch holds, and, where they are more than one, they stay
/// within the byte limit.
pub open spec fn batch_fits(queue: Seq<ValidatedModel>, config: LoaderConfig, count: nat) -> bool {
    &&& count <= queue.len()
    &&& count <= config.batch_size
    &&& (count <= 1 || capped(prefix_bytes(queue, count)) <= config.max_batch_bytes)
}

/// The largest count up to `limit` that may form a batch.
pub open spec fn batch_len_upto(queue: Seq<ValidatedModel>, config: LoaderConfig, limit: nat) -> nat
    decreases limit,
{
    if limit == 0 {
        0
    } else if batch_fits(queue, config, limit) {
        limit
    } else {
        batch_len_upto(queue, config, (limit - 1) as nat)
    }
}

/// The number of records of the next batch: as many from the front of the
/// queue as may form a batch.
pub open spec fn next_batch_len(queue: Seq<ValidatedModel>, config: LoaderConfig) -> nat {
    batch_len_upto(queue, config, queue.len())
}

/// Whether a batch is due at the time `now`: nothing is in flight, the run is
/// not cancelled, the queue holds something, and the caller asks for a flush,
/// a record was marked urgent, the queue holds a full batch by count or by
/// bytes, or the oldest record has waited for the flush interval.
pub open spec fn batch_due(state: LoaderModel, now: u64, flush: bool) -> bool {
    &&& state.in_flight == 0
    &&& !state.cancelled
    &&& state.queue.len() > 0
    &&& {
        ||| flush
        ||| state.urgent
        ||| state.queue.len() >= state.config.batch_size
        ||| capped(prefix_bytes(state.queue, state.queue.len())) >= state.config.max_batch_bytes
        ||| now - state.accepted_at[0] >= state.config.flush_interval_ms
    }
}

/// The state after asking for the next batch: where one is due, the records
/// at the front of the queue that form it are in flight for the first time.
/// The queue itself is as it was.
pub open spec fn after_next_batch(state: LoaderModel, now: u64, flush: bool) -> LoaderModel {
    if batch_due(state, now, flush) {
        let count = next_batch_len(state.queue, state.config);
        LoaderModel {
            in_flight: count,
            attempt: 1,
            urgent: state.urgent && count < state.queue.len(),
            ..state
        }
    } else {
        state
    }
}

/// The batch that awaits the warehouse's answer, if one does.
pub open spec fn batch_in_flight(state: LoaderModel) -> Option<BatchModel> {
    if state.in_flight > 0 {
        Some(
            BatchModel {
                table_name: state.table_name,
                records: state.queue.take(state.in_flight as int),
                attempt: state.attempt,
            },
        )
    } else {
        None
    }
}

/// More records have at least as many bytes.
pub proof fn lemma_prefix_bytes_grow(records: Seq<ValidatedModel>, fewer: nat, more: nat)
    requires
        fewer <= more <= records.len(),
    ensures
        prefix_bytes(records, fewer) <= prefix_bytes(records, more),
    decreases more,
{
    if fewer < more {
        lemma_prefix_bytes_grow(records, fewer, (more - 1) as nat);
    }
}

/// A count that fits while no larger count up to `limit` does is the largest
/// that fits.
pub proof fn lemma_batch_len(queue: Seq<ValidatedModel>, config: LoaderConfig, count: nat, limit: nat)
    requires
        1 <= count <= limit,
        batch_fits(queue, config, count),
        forall|more: nat| count < more <= limit ==> !batch_fits(queue, config, more),
    ensures
        batch_len_upto(queue, config, limit) == count,
    decreases limit,
{
    if limit > count {
        lemma_batch_len(queue, config, count, (limit - 1) as nat);
    }
}

/// The next batch holds at least one record and no more than a batch may,
/// and no larger batch could have been formed.
pub proof fn lemma_next_batch_len(queue: Seq<ValidatedModel>, config: LoaderConfig)
    requires
        queue.len() > 0,
        config.batch_size >= 1,
    ensures
        1 <= next_batch_len(queue, config) <= queue.len(),
        batch_fits(queue, config, next_batch_len(queue, config)),
        forall|more: nat|
            next_batch_len(queue, config) < more ==> !batch_fits(queue, config, more),
{
    lemma_batch_len_upto(queue, config, queue.len());
    let count = next_batch_len(queue, config);
    assert forall|more: nat| count < more implies !batch_fits(queue, config, more) by {
        if more <= queue.len() && more <= config.batch_size && more >= 2 && count >= 1 {
            if count + 1 <= queue.len() {
                lemma_prefix_bytes_grow(queue, count + 1, more);
            }
        }
    }
}

/// What `batch_len_upto` gives fits, and the count above it does not.
pub proof fn lemma_batch_len_upto(queue: Seq<ValidatedModel>, config: LoaderConfig, limit: nat)
    requires
        limit <= queue.len(),
        limit > 0 ==> config.batch_size >= 1,
    ensures
        batch_len_upto(queue, config, limit) <= limit,
        limit > 0 ==> batch_len_upto(queue, config, limit) >= 1,
        batch_fits(queue, config, batch_len_upto(queue, config, limit)),
        batch_len_upto(queue, config, limit) < limit ==> !batch_fits(
            queue,
            config,
            batch_len_upto(queue, config, limit) + 1,
        ),
    decreases limit,
{
    if limit > 0 && !batch_fits(queue, config, limit) {
        lemma_batch_len_upto(queue, config, (limit - 1) as nat);
    }
}

/// What the warehouse said about one row that it did not take.
#[derive(Debug, PartialEq, Eq)]
pub struct RowError {
    /// The place of the row in the batch, from 0.
    pub index: usize,
    pub reason: String,
}

/// The mathematical content of a [`RowError`].
pub struct RowErrorModel {
    pub index: usize,
    pub reason: Seq<char>,
}

impl View for RowError {
    type V = RowErrorModel;

    open spec fn view(&self) -> RowErrorModel {
        RowErrorModel { index: self.index, reason: self.reason@ }
    }
}

impl DeepView for RowError {
    type V = RowErrorModel;

    open spec fn deep_view(&self) -> RowErrorModel {
        self@
    }
}

/// What came of the submission of a batch.
#[derive(Debug, PartialEq, Eq)]
pub enum SubmitOutcome {
    /// The warehouse answered; the rows that it names were not taken, all
    /// others were.
    Acknowledged(Vec<RowError>),
    /// The submission failed in a way that may pass: a timeout, a failure on
    /// the warehouse's side, a quota that asks to come back later.
    Transient(String),
    /// The submission failed for good.
    Permanent(String),
}

/// The mathematical content of a [`SubmitOutcome`].
pub enum OutcomeModel {
    Acknowledged(Seq<RowErrorModel>),
    Transient(Seq<char>),
    Permanent(Seq<char>),
}

impl View for SubmitOutcome {
    type V = OutcomeModel;

    open spec fn view(&self) -> OutcomeModel {
        match self {
            SubmitOutcome::Acknowledged(errors) => OutcomeModel::Acknowledged(errors.deep_view()),
            SubmitOutcome::Transient(message) => OutcomeModel::Transient(message@),
            SubmitOutcome::Permanent(message) => OutcomeModel::Permanent(message@),
        }
    }
}

/// What a submission that failed comes to. Without a status no answer
/// arrived, as after a timeout, and the failure may pass; so may one with a
/// status that asks for another attempt. Any other status is a failure for
/// good.
pub open spec fn failure_outcome(status: Option<u16>, message: Seq<char>) -> OutcomeModel {
    match status {
        None => OutcomeModel::Transient(message),
        Some(code) => if status_retryable(code) {
            OutcomeModel::Transient(message)
        } else {
            OutcomeModel::Permanent(message)
        },
    }
}

impl SubmitOutcome {
    /// The outcome of a submission that failed with the given status of
    /// HTTP, or with none where no answer arrived.
    pub fn from_failure(status: Option<u16>, message: String) -> (outcome: SubmitOutcome)
        ensures
            outcome@ == failure_outcome(status, message@),
    {
        match status {
            None => SubmitOutcome::Transient(message),
            Some(code) => if is_retryable_status(code) {
                SubmitOutcome::Transient(message)
            } else {
                SubmitOutcome::Permanent(message)
            },
        }
    }
}

/// A record that was given up, with the reason.
#[derive(Debug, PartialEq, Eq)]
pub struct DeadLetter {
    pub record: ValidatedRecord,
    pub error: ClimateError,
}

/// The mathematical content of a [`DeadLetter`].
pub struct DeadLetterModel {
    pub record: ValidatedModel,
    pub error: ErrorModel,
}

impl View for DeadLetter {
    type V = DeadLetterModel;

    open spec fn view(&self) -> DeadLetterModel {
        DeadLetterModel { record: self.record@, error: self.error@ }
    }
}

impl DeepView for DeadLetter {
    type V = DeadLetterModel;

    open spec fn deep_view(&self) -> DeadLetterModel {
        self@
    }
}

/// What the loader makes of the outcome of a submission.
#[derive(Debug, PartialEq, Eq)]
pub enum Resolution {
    /// No batch was in flight: there was nothing to resolve.
    Idle,
    /// The batch is to be submitted again after so many ms.
    RetryAfter(u64),
    /// The batch is settled: each of its records is loaded or given up.
    Settled { loaded: Vec<ValidatedRecord>, dead: Vec<DeadLetter> },
}

/// The mathematical content of a [`Resolution`].
pub enum ResolutionModel {
    Idle,
    RetryAfter(u64),
    Settled { loaded: Seq<ValidatedModel>, dead: Seq<DeadLetterModel> },
}

impl View for Resolution {
    type V = ResolutionModel;

    open spec fn view(&self) -> ResolutionModel {
        match self {
            Resolution::Idle => ResolutionModel::Idle,
            Resolution::RetryAfter(delay) => ResolutionModel::RetryAfter(*delay),
            Resolution::Settled { loaded, dead } => ResolutionModel::Settled {
                loaded: loaded.deep_view(),
                dead: dead.deep_view(),
            },
        }
    }
}

/// Why the warehouse did not take the row at `index`, if it did not: the
/// reason of the last error that names the row.
pub open spec fn rejection(errors: Seq<RowErrorModel>, index: int) -> Option<Seq<char>>
    decreases errors.len(),
{
    if errors.len() == 0 {
        None
    } else if errors.last().index == index {
        Some(errors.last().reason)
    } else {
        rejection(errors.drop_last(), index)
    }
}

/// Of the first `count` records of a batch, those that the warehouse took, in
/// order.
pub open spec fn loaded_rows(batch: Seq<ValidatedModel>, errors: Seq<RowErrorModel>, count: nat) -> Seq<
    ValidatedModel,
>
    decreases count,
{
    if count == 0 {
        Seq::empty()
    } else {
        let earlier = loaded_rows(batch, errors, (count - 1) as nat);
        if rejection(errors, count - 1) is None {
            earlier.push(batch[count - 1])
        } else {
            earlier
        }
    }
}

/// Of the first `count` records of a batch, those that the warehouse did not
/// take, in order, each with the warehouse's reason.
pub open spec fn rejected_rows(batch: Seq<ValidatedModel>, errors: Seq<RowErrorModel>, count: nat) -> Seq<
    DeadLetterModel,
>
    decreases count,
{
    if count == 0 {
        Seq::empty()
    } else {
        let earlier = rejected_rows(batch, errors, (count - 1) as nat);
        match rejection(errors, count - 1) {
            Some(reason) => earlier.push(
                DeadLetterModel { record: batch[count - 1], error: ErrorModel::BigQueryError(reason) },
            ),
            None => earlier,
        }
    }
}

/// All records of a batch given up for one reason.
pub open spec fn all_dead(batch: Seq<ValidatedModel>, message: Seq<char>) -> Seq<DeadLetterModel> {
    batch.map_values(
        |record: ValidatedModel|
            DeadLetterModel { record, error: ErrorModel::BigQueryError(message) },
    )
}

/// The state after a batch is settled: its records have left the queue and
/// nothing is in flight.
pub open spec fn after_settle(state: LoaderModel) -> LoaderModel {
    LoaderModel {
        queue: state.queue.skip(state.in_flight as int),
        accepted_at: state.accepted_at.skip(state.in_flight as int),
        in_flight: 0,
        attempt: 0,
        ..state
    }
}

/// Whether the outcome of a submission leaves the batch in flight, to be
/// submitted again: the failure may pass and attempts are left.
pub open spec fn retries(state: LoaderModel, outcome: OutcomeModel) -> bool {
    outcome is Transient && state.attempt < state.config.retry.max_attempts
}

/// The state after the outcome of a submission is reported.
pub open spec fn after_resolve(state: LoaderModel, outcome: OutcomeModel) -> LoaderModel {
    if state.in_flight == 0 {
        state
    } else if retries(state, outcome) {
        LoaderModel { attempt: (state.attempt + 1) as u32, ..state }
    } else {
        after_settle(state)
    }
}

/// What the loader makes of the outcome of a submission, for the random
/// sample `jitter`. Rows that the warehouse names are given up with its
/// reason and the others are loaded. A failure that may pass is tried again
/// after the delay of the retry policy while attempts are left; after the
/// last attempt, and after a failure for good, the whole batch is given up.
pub open spec fn resolution(state: LoaderModel, outcome: OutcomeModel, jitter: u64) -> ResolutionModel {
    let batch = state.queue.take(state.in_flight as int);
    if state.in_flight == 0 {
        ResolutionModel::Idle
    } else {
        match outcome {
            OutcomeModel::Acknowledged(errors) => ResolutionModel::Settled {
                loaded: loaded_rows(batch, errors, state.in_flight),
                dead: rejected_rows(batch, errors, state.in_flight),
            },
            OutcomeModel::Transient(message) => if state.attempt < state.config.retry.max_attempts {
                ResolutionModel::RetryAfter(
                    backoff_delay(state.config.retry, state.attempt, jitter) as u64,
                )
            } else {
                ResolutionModel::Settled { loaded: Seq::empty(), dead: all_dead(batch, message) }
            },
            OutcomeModel::Permanent(message) => ResolutionModel::Settled {
                loaded: Seq::empty(),
                dead: all_dead(batch, message),
            },
        }
    }
}

/// A submission that is tried again sends the records that were sent before,
/// in the same order, and the queue holds what it held.
pub proof fn lemma_retry_sends_the_same_records(state: LoaderModel, outcome: OutcomeModel)
    requires
        loader_wf(state),
        state.in_flight > 0,
        retries(state, outcome),
    ensures
        batch_in_flight(after_resolve(state, outcome)) matches Some(again) && {
            &&& again.records == batch_in_flight(state)->0.records
            &&& again.table_name == batch_in_flight(state)->0.table_name
            &&& again.attempt == batch_in_flight(state)->0.attempt + 1
        },
        after_resolve(state, outcome).queue == state.queue,
        loader_wf(after_resolve(state, outcome)),
{
}

/// Nothing is lost when a batch is settled: every one of its records is
/// either loaded or given up, and none is both.
pub proof fn lemma_settlement_is_complete(
    batch: Seq<ValidatedModel>,
    errors: Seq<RowErrorModel>,
    count: nat,
)
    requires
        count <= batch.len(),
    ensures
        loaded_rows(batch, errors, count).len() + rejected_rows(batch, errors, count).len()
            == count,
        forall|i: int|
            0 <= i < count ==> if rejection(errors, i) is None {
                loaded_rows(batch, errors, count).contains(#[trigger] batch[i])
            } else {
                rejected_rows(batch, errors, count).contains(
                    DeadLetterModel {
                        record: batch[i],
                        error: ErrorModel::BigQueryError(rejection(errors, i)->0),
                    },
                )
            },
    decreases count,
{
    if count > 0 {
        let earlier = (count - 1) as nat;
        lemma_settlement_is_complete(batch, errors, earlier);
        let loaded = loaded_rows(batch, errors, count);
        let dead = rejected_rows(batch, errors, count);
        let loaded_before = loaded_rows(batch, errors, earlier);
        let dead_before = rejected_rows(batch, errors, earlier);
        assert forall|i: int| 0 <= i < count implies if rejection(errors, i) is None {
            loaded.contains(#[trigger] batch[i])
        } else {
            dead.contains(
                DeadLetterModel {
                    record: batch[i],
                    error: ErrorModel::BigQueryError(rejection(errors, i)->0),
                },
            )
        } by {
            if i < count - 1 {
                if rejection(errors, i) is None {
                    let at = choose|at: int|
                        0 <= at < loaded_before.len() && loaded_before[at] == batch[i];
                    assert(loaded[at] == batch[i]);
                } else {
                    let letter = DeadLetterModel {
                        record: batch[i],
                        error: ErrorModel::BigQueryError(rejection(errors, i)->0),
                    };
                    let at = choose|at: int| 0 <= at < dead_before.len() && dead_before[at] == letter;
                    assert(dead[at] == letter);
                }
            } else {
                if rejection(errors, i) is None {
                    assert(loaded[loaded.len() - 1] == batch[i]);
                } else {
                    assert(dead[dead.len() - 1].record == batch[i]);
                }
            }
        }
    }
}

/// Delivers validated records to one table of the warehouse.
#[derive(Debug)]
pub struct DataLoader {
    config: LoaderConfig,
    table_name: String,
    queue: Vec<ValidatedRecord>,
    accepted_at: Vec<u64>,
    in_flight: usize,
    attempt: u32,
    urgent: bool,
    cancelled: bool,
}

impl View for DataLoader {
    type V = LoaderModel;

    closed spec fn view(&self) -> LoaderModel {
        LoaderModel {
            config: self.config,
            table_name: self.table_name@,
            queue: self.queue.deep_view(),
            accepted_at: self.accepted_at@,
            in_flight: self.in_flight as nat,
            attempt: self.attempt,
            urgent: self.urgent,
            cancelled: self.cancelled,
        }
    }
}

/// The state of a loader that has just been made.
pub open spec fn fresh_loader(table_name: Seq<char>, config: LoaderConfig) -> LoaderModel {
    LoaderModel {
        config,
        table_name,
        queue: Seq::empty(),
        accepted_at: Seq::empty(),
        in_flight: 0,
        attempt: 0,
        urgent: false,
        cancelled: false,
    }
}

/// The limits of a loader made without any: batches of up to 500 records and
/// 5,000,000 bytes, due after 5 seconds, a queue of 1000 records, and the
/// standard retry policy.
pub open spec fn standard_config() -> LoaderConfig {
    LoaderConfig {
        batch_size: 500,
        max_batch_bytes: 5_000_000,
        flush_interval_ms: 5_000,
        queue_capacity: 1000,
        retry: RetryPolicy { max_attempts: 5, base_delay_ms: 500, max_delay_ms: 30_000 },
    }
}

impl DataLoader {
    /// Whether the loader is in a state that a loader can be in. Every
    /// loader that this library hands out is, and stays so.
    pub open spec fn wf(&self) -> bool {
        loader_wf(self@)
    }

    /// A loader for the staging table of weather observations, with the
    /// standard limits.
    pub fn new() -> (loader: Self)
        ensures
            loader.wf(),
            loader@ == fresh_loader("staging_weather_observations"@, standard_config()),
    {
        let loader = DataLoader {
            config: LoaderConfig {
                batch_size: 500,
                max_batch_bytes: 5_000_000,
                flush_interval_ms: 5_000,
                queue_capacity: 1000,
                retry: RetryPolicy::standard(),
            },
            table_name: "staging_weather_observations".to_owned(),
            queue: Vec::new(),
            accepted_at: Vec::new(),
            in_flight: 0,
            attempt: 0,
            urgent: false,
            cancelled: false,
        };
        assert(loader.queue.deep_view() =~= Seq::empty());
        loader
    }

    /// A loader for the table `table_name` with the given limits, which are
    /// refused as a configuration error where they make no sense.
    pub fn with_config(table_name: &str, config: LoaderConfig) -> (made: Result<Self, ClimateError>)
        ensures
            made is Ok <==> config_valid(config),
            made matches Ok(loader) ==> loader.wf() && loader@ == fresh_loader(
                table_name@,
                config,
            ),
            made matches Err(error) ==> error@ == crate::utils::error::ErrorModel::ConfigError(
                "batch size, queue capacity and attempts must be at least 1"@,
            ),
    {
        if config.batch_size < 1 || config.queue_capacity < 1 || config.retry.max_attempts < 1 {
            return Err(
                ClimateError::ConfigError(
                    "batch size, queue capacity and attempts must be at least 1".to_owned(),
                ),
            );
        }
        let loader = DataLoader {
            config,
            table_name: table_name.to_owned(),
            queue: Vec::new(),
            accepted_at: Vec::new(),
            in_flight: 0,
            attempt: 0,
            urgent: false,
            cancelled: false,
        };
        assert(loader.queue.deep_view() =~= Seq::empty());
        Ok(loader)
    }

    /// Offers a record to the loader at the time `now_ms`. The record is
    /// taken into the queue if the run is not cancelled, the record is for
    /// this loader's table and the queue has room; if not it is handed back
    /// and the loader is as it was.
    pub fn deliver(&mut self, record: ValidatedRecord, now_ms: u64) -> (outcome: Delivery)
        requires
            old(self).wf(),
        ensures
            final(self).wf(),
            final(self)@ == after_deliver(old(self)@, record@, now_ms),
            outcome.kind() == delivery_kind(old(self)@, record@),
            outcome.kind() != DeliveryKind::Accepted ==> outcome.returned() == Some(record@),
    {
        if self.cancelled {
            return Delivery::Closed(record);
        }
        if !str_eq(record.table_name.as_str(), self.table_name.as_str()) {
            return Delivery::WrongTable(record);
        }
        if self.queue.len() >= self.config.queue_capacity {
            return Delivery::Full(record);
        }
        let ghost before = self.queue.deep_view();
        self.queue.push(record);
        self.accepted_at.push(now_ms);
        assert(self.queue.deep_view() =~= before.push(record@));
        Delivery::Accepted
    }

    /// Offers a record that should reach the warehouse without waiting for a
    /// full batch: if it is accepted, the next batch is due at once.
    pub fn load_streaming(&mut self, record: ValidatedRecord, now_ms: u64) -> (outcome: Delivery)
        requires
            old(self).wf(),
        ensures
            final(self).wf(),
            outcome.kind() == delivery_kind(old(self)@, record@),
            outcome.kind() != DeliveryKind::Accepted ==> outcome.returned() == Some(record@),
            final(self)@ == if outcome.kind() == DeliveryKind::Accepted {
                LoaderModel { urgent: true, ..after_deliver(old(self)@, record@, now_ms) }
            } else {
                old(self)@
            },
    {
        let outcome = self.deliver(record, now_ms);
        if outcome.is_accepted() {
            self.urgent = true;
        }
        outcome
    }

    /// Offers records for batch loading, in order, at the time `now_ms`, and
    /// hands back those from the first that was not accepted on. The caller
    /// waits until a batch is settled and offers them again.
    pub fn load_records(&mut self, records: Vec<ValidatedRecord>, now_ms: u64) -> (rest: Vec<
        ValidatedRecord,
    >)
        requires
            old(self).wf(),
        ensures
            final(self).wf(),
            rest.len() <= records.len(),
            ({
                let taken = records.len() - rest.len();
                &&& final(self)@ == after_deliveries(
                    old(self)@,
                    records.deep_view().take(taken),
                    now_ms,
                )
                &&& final(self)@.queue == old(self)@.queue + records.deep_view().take(taken)
                &&& rest.deep_view() == records.deep_view().skip(taken)
                &&& rest.len() > 0 ==> delivery_kind(final(self)@, rest[0]@)
                    != DeliveryKind::Accepted
            }),
    {
        let ghost all = records.deep_view();
        let ghost start = self@;
        let mut rest: Vec<ValidatedRecord> = Vec::new();
        assert(all.take(0).len() == 0);
        assert(start.queue + all.take(0) =~= start.queue);
        for record in it: records
            invariant
                it.seq() == records@,
                all == records.deep_view(),
                start == old(self)@,
                self.wf(),
                rest.len() <= it.index(),
                ({
                    let taken = it.index() - rest.len();
                    &&& self@ == after_deliveries(start, all.take(taken), now_ms)
                    &&& self@.queue == start.queue + all.take(taken)
                    &&& rest.deep_view() == all.subrange(taken, it.index() as int)
                    &&& rest.len() > 0 ==> delivery_kind(self@, rest[0]@) != DeliveryKind::Accepted
                }),
        {
            let ghost at = it.index() as int;
            let ghost taken = at - rest.len();
            let ghost rest_before = rest.deep_view();
            assert(all[at] == record@);
            if rest.len() > 0 {
                rest.push(record);
                assert(rest.deep_view() =~= rest_before.push(record@));
                assert(rest.deep_view() =~= all.subrange(taken, at + 1));
            } else {
                assert(all.take(at + 1).drop_last() =~= all.take(at));
                assert(all.take(at + 1).last() == all[at]);
                let ghost queue_before = self@.queue;
                match self.deliver(record, now_ms) {
                    Delivery::Accepted => {
                        assert(self@.queue =~= start.queue + all.take(at + 1));
                        assert(rest.deep_view() =~= all.subrange(at + 1, at + 1));
                    },
                    Delivery::Full(back) => {
                        rest.push(back);
                        assert(rest.deep_view() =~= all.subrange(at, at + 1));
                    },
                    Delivery::Closed(back) => {
                        rest.push(back);
                        assert(rest.deep_view() =~= all.subrange(at, at + 1));
                    },
                    Delivery::WrongTable(back) => {
                        rest.push(back);
                        assert(rest.deep_view() =~= all.subrange(at, at + 1));
                    },
                }
            }
        }
        assert(rest.deep_view() =~= all.skip(records.len() - rest.len()));
        rest
    }
}

/// The state after cancellation: the records that were not submitted have
/// left the queue, the batch in flight stays until its outcome is reported,
/// and nothing more is accepted or submitted.
pub open spec fn after_cancel(state: LoaderModel) -> LoaderModel {
    LoaderModel {
        queue: state.queue.take(state.in_flight as int),
        accepted_at: state.accepted_at.take(state.in_flight as int),
        urgent: false,
        cancelled: true,
        ..state
    }
}

fn copy_records(records: &Vec<ValidatedRecord>, count: usize) -> (copy: Vec<ValidatedRecord>)
    requires
        count <= records.len(),
    ensures
        copy.deep_view() == records.deep_view().take(count as int),
{
    let mut copy: Vec<ValidatedRecord> = Vec::new();
    let mut i: usize = 0;
    while i < count
        invariant
            i <= count <= records.len(),
            copy.len() == i,
            forall|j: int| 0 <= j < i ==> copy[j]@ == records[j]@,
        decreases count - i,
    {
        copy.push(records[i].clone());
        i += 1;
    }
    assert(copy.deep_view() =~= records.deep_view().take(count as int));
    copy
}

fn take_front<T>(items: &mut Vec<T>, count: usize) -> (front: Vec<T>)
    requires
        count <= old(items).len(),
    ensures
        front@ == old(items)@.take(count as int),
        final(items)@ == old(items)@.skip(count as int),
{
    let mut back = items.split_off(count);
    core::mem::swap(items, &mut back);
    assert(back@ =~= old(items)@.take(count as int));
    assert(items@ =~= old(items)@.skip(count as int));
    back
}

fn find_rejection(errors: &Vec<RowError>, index: usize) -> (found: Option<&String>)
    ensures
        found.deep_view() == rejection(errors.deep_view(), index as int),
{
    let ghost model = errors.deep_view();
    let mut i: usize = errors.len();
    assert(model.take(i as int) =~= model);
    while i > 0
        invariant
            i <= errors.len(),
            model == errors.deep_view(),
            rejection(model, index as int) == rejection(model.take(i as int), index as int),
        decreases i,
    {
        i -= 1;
        assert(model.take(i + 1).last() == model[i as int]);
        assert(model.take(i + 1).drop_last() =~= model.take(i as int));
        if errors[i].index == index {
            return Some(&errors[i].reason);
        }
    }
    assert(model.take(0).len() == 0);
    None
}

fn give_up_all(records: Vec<ValidatedRecord>, message: &str) -> (dead: Vec<DeadLetter>)
    ensures
        dead.deep_view() == all_dead(records.deep_view(), message@),
{
    let ghost all = records.deep_view();
    let mut dead: Vec<DeadLetter> = Vec::new();
    for record in it: records
        invariant
            it.seq() == records@,
            all == records.deep_view(),
            dead.len() == it.index(),
            forall|j: int|
                0 <= j < dead.len() ==> dead[j]@ == (DeadLetterModel {
                    record: all[j],
                    error: ErrorModel::BigQueryError(message@),
                }),
    {
        assert(all[it.index() as int] == record@);
        dead.push(DeadLetter { record, error: ClimateError::BigQueryError(message.to_owned()) });
    }
    assert(dead.deep_view() =~= all_dead(all, message@));
    dead
}

impl DataLoader {
    /// The table that the loader delivers to.
    pub fn table_name(&self) -> (name: &str)
        ensures
            name@ == self@.table_name,
    {
        self.table_name.as_str()
    }

    /// The limits of the loader.
    pub fn config(&self) -> (config: LoaderConfig)
        ensures
            config == self@.config,
    {
        self.config
    }

    /// The number of records that the loader owns: accepted and not settled.
    pub fn pending_count(&self) -> (count: usize)
        ensures
            count == self@.queue.len(),
    {
        self.queue.len()
    }

    /// The number of records in the batch that awaits the warehouse's answer.
    pub fn in_flight_count(&self) -> (count: usize)
        ensures
            count == self@.in_flight,
    {
        self.in_flight
    }

    /// Whether the loader owns nothing: every record that it accepted is
    /// settled.
    pub fn is_idle(&self) -> (yes: bool)
        ensures
            yes == (self@.queue.len() == 0),
    {
        self.queue.len() == 0
    }

    /// Whether the run was cancelled.
    pub fn is_cancelled(&self) -> (yes: bool)
        ensures
            yes == self@.cancelled,
    {
        self.cancelled
    }

    /// Whether the loader may be torn down: no submission awaits its outcome.
    /// A submission that is under way is never cut off.
    pub fn may_tear_down(&self) -> (yes: bool)
        ensures
            yes == (self@.in_flight == 0),
    {
        self.in_flight == 0
    }

    fn queued_bytes(&self) -> (size: u64)
        ensures
            size == capped(prefix_bytes(self@.queue, self@.queue.len())),
    {
        let ghost queue = self.queue.deep_view();
        let mut size: u64 = 0;
        let mut i: usize = 0;
        while i < self.queue.len()
            invariant
                i <= self.queue.len(),
                queue == self.queue.deep_view(),
                size == capped(prefix_bytes(queue, i as nat)),
            decreases self.queue.len() - i,
        {
            size = add_capped(size, self.queue[i].size_bytes());
            i += 1;
        }
        size
    }

    fn fitting_count(&self) -> (count: usize)
        requires
            self.wf(),
            self@.queue.len() > 0,
        ensures
            count == next_batch_len(self@.queue, self@.config),
            1 <= count <= self@.queue.len(),
            count <= self@.config.batch_size,
    {
        let ghost queue = self.queue.deep_view();
        let ghost config = self.config;
        let n = self.queue.len();
        let mut count: usize = 1;
        let mut size: u64 = self.queue[0].size_bytes();
        let mut stop = false;
        assert(prefix_bytes(queue, 1) == prefix_bytes(queue, 0) + row_bytes(queue[0].row));
        while !stop && count < n && count < self.config.batch_size
            invariant
                1 <= count <= n,
                n == self.queue.len(),
                queue == self.queue.deep_view(),
                config == self.config,
                count <= config.batch_size,
                size == capped(prefix_bytes(queue, count as nat)),
                batch_fits(queue, config, count as nat),
                stop ==> count < n && capped(prefix_bytes(queue, (count + 1) as nat))
                    > config.max_batch_bytes,
            decreases n - count + (if stop { 0int } else { 1int }),
        {
            let next = add_capped(size, self.queue[count].size_bytes());
            if next > self.config.max_batch_bytes {
                stop = true;
            } else {
                size = next;
                count += 1;
            }
        }
        proof {
            assert forall|more: nat| count < more <= queue.len() implies !batch_fits(
                queue,
                config,
                more,
            ) by {
                if stop {
                    lemma_prefix_bytes_grow(queue, (count + 1) as nat, more);
                }
            }
            lemma_batch_len(queue, config, count as nat, queue.len());
        }
        count
    }

    /// Asks for the next batch at the time `now_ms`; `flush` asks for it even
    /// where the queue holds less than a batch. Where a batch is due it is
    /// formed from the front of the queue, as large as a batch may be, and is
    /// in flight from now on. The records stay in the queue until the batch
    /// is settled.
    pub fn next_batch(&mut self, now_ms: u64, flush: bool) -> (batch: Option<LoadBatch>)
        requires
            old(self).wf(),
        ensures
            final(self).wf(),
            final(self)@ == after_next_batch(old(self)@, now_ms, flush),
            final(self)@.queue == old(self)@.queue,
            batch.deep_view() == if batch_due(old(self)@, now_ms, flush) {
                batch_in_flight(final(self)@)
            } else {
                None
            },
    {
        if self.in_flight > 0 || self.cancelled || self.queue.len() == 0 {
            return None;
        }
        let oldest = self.accepted_at[0];
        let waited = now_ms >= oldest && now_ms - oldest >= self.config.flush_interval_ms;
        let mut due = flush || self.urgent || self.queue.len() >= self.config.batch_size || waited;
        if !due {
            due = self.queued_bytes() >= self.config.max_batch_bytes;
        }
        if !due {
            return None;
        }
        let count = self.fitting_count();
        let records = copy_records(&self.queue, count);
        self.in_flight = count;
        self.attempt = 1;
        self.urgent = self.urgent && count < self.queue.len();
        Some(LoadBatch { table_name: self.table_name.clone(), records, attempt: 1 })
    }

    /// The batch that awaits the warehouse's answer, formed anew: what is
    /// submitted when a submission is tried again.
    pub fn current_batch(&self) -> (batch: Option<LoadBatch>)
        requires
            self.wf(),
        ensures
            batch.deep_view() == batch_in_flight(self@),
    {
        if self.in_flight == 0 {
            return None;
        }
        let records = copy_records(&self.queue, self.in_flight);
        Some(LoadBatch { table_name: self.table_name.clone(), records, attempt: self.attempt })
    }

    /// Reports the outcome of the submission of the batch in flight; `jitter`
    /// is a random sample that spreads the delay of a retry. The loader
    /// answers with what is to be done: nothing where no batch was in
    /// flight, a retry after a delay, or the settlement of the batch, in
    /// which every record is either loaded or given up with a reason.
    pub fn resolve(&mut self, outcome: SubmitOutcome, jitter: u64) -> (answer: Resolution)
        requires
            old(self).wf(),
        ensures
            final(self).wf(),
            final(self)@ == after_resolve(old(self)@, outcome@),
            answer@ == resolution(old(self)@, outcome@, jitter),
    {
        if self.in_flight == 0 {
            return Resolution::Idle;
        }
        let ghost state = self@;
        let ghost batch = state.queue.take(state.in_flight as int);
        match outcome {
            SubmitOutcome::Transient(message) => {
                if self.attempt < self.config.retry.max_attempts {
                    let delay = self.config.retry.delay_ms(self.attempt, jitter);
                    self.attempt = self.attempt + 1;
                    let answer = Resolution::RetryAfter(delay);
                    assert(answer@ == resolution(state, outcome@, jitter));
                    answer
                } else {
                    let records = self.settle();
                    let loaded: Vec<ValidatedRecord> = Vec::new();
                    let dead = give_up_all(records, message.as_str());
                    assert(loaded.deep_view() =~= Seq::empty());
                    let answer = Resolution::Settled { loaded, dead };
                    assert(answer@ == resolution(state, outcome@, jitter));
                    answer
                }
            },
            SubmitOutcome::Permanent(message) => {
                let records = self.settle();
                let loaded: Vec<ValidatedRecord> = Vec::new();
                let dead = give_up_all(records, message.as_str());
                assert(loaded.deep_view() =~= Seq::empty());
                let answer = Resolution::Settled { loaded, dead };
                assert(answer@ == resolution(state, outcome@, jitter));
                answer
            },
            SubmitOutcome::Acknowledged(errors) => {
                let records = self.settle();
                let ghost model = errors.deep_view();
                let mut loaded: Vec<ValidatedRecord> = Vec::new();
                let mut dead: Vec<DeadLetter> = Vec::new();
                let mut index: usize = 0;
                let count = records.len();
                for record in it: records
                    invariant
                        it.seq() == records@,
                        records@.len() == count,
                        batch == records.deep_view(),
                        model == errors.deep_view(),
                        index == it.index(),
                        loaded.deep_view() == loaded_rows(batch, model, index as nat),
                        dead.deep_view() == rejected_rows(batch, model, index as nat),
                {
                    assert(index < records@.len());
                    assert(batch[index as int] == record@);
                    let ghost loaded_before = loaded.deep_view();
                    let ghost dead_before = dead.deep_view();
                    match find_rejection(&errors, index) {
                        Some(reason) => {
                            let letter = DeadLetter {
                                record,
                                error: ClimateError::BigQueryError(reason.clone()),
                            };
                            dead.push(letter);
                            assert(dead.deep_view() =~= dead_before.push(letter@));
                        },
                        None => {
                            loaded.push(record);
                            assert(loaded.deep_view() =~= loaded_before.push(record@));
                        },
                    }
                    index += 1;
                }
                let answer = Resolution::Settled { loaded, dead };
                assert(answer@ == resolution(state, outcome@, jitter));
                answer
            },
        }
    }

    fn settle(&mut self) -> (records: Vec<ValidatedRecord>)
        requires
            old(self).wf(),
            old(self)@.in_flight > 0,
        ensures
            final(self).wf(),
            final(self)@ == after_settle(old(self)@),
            records.deep_view() == old(self)@.queue.take(old(self)@.in_flight as int),
            records.len() == old(self)@.in_flight,
    {
        let ghost before = self.queue.deep_view();
        let count = self.in_flight;
        let records = take_front(&mut self.queue, count);
        let _ = take_front(&mut self.accepted_at, count);
        self.in_flight = 0;
        self.attempt = 0;
        assert(records.deep_view() =~= before.take(count as int));
        assert(self.queue.deep_view() =~= before.skip(count as int));
        records
    }

    /// Cancels the run. The records that were not submitted leave the queue
    /// and are handed back, so that the caller can record them as given up;
    /// the batch in flight, if there is one, stays until its outcome is
    /// reported. From now on nothing is accepted and no batch is formed.
    pub fn cancel(&mut self) -> (unsent: Vec<ValidatedRecord>)
        requires
            old(self).wf(),
        ensures
            final(self).wf(),
            final(self)@ == after_cancel(old(self)@),
            unsent.deep_view() == old(self)@.queue.skip(old(self)@.in_flight as int),
    {
        let ghost before = self.queue.deep_view();
        let count = self.in_flight;
        let mut unsent = self.queue.split_off(count);
        let _ = self.accepted_at.split_off(count);
        self.urgent = false;
        self.cancelled = true;
        assert(unsent.deep_view() =~= before.skip(count as int));
        assert(self.queue.deep_view() =~= before.take(count as int));
        assert(self.accepted_at@ =~= old(self)@.accepted_at.take(count as int));
        unsent
    }
}

} // verus!
