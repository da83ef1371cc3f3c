//! What a table of the warehouse does with the rows that it is sent.
//!
//! A row is keyed by the identifier of its record. A row whose key the table
//! already holds is ignored, so that a batch that is sent again, after an
//! answer that never came, leaves the table as the first sending left it.

use crate::bigquery::loader::{LoadBatch, SubmitOutcome};
use crate::bigquery::validate::{ValidatedModel, ValidatedRecord};
use crate::utils::text::str_eq;
use vstd::prelude::*;
use vstd::string::*;

verus! {

/// Whether the rows hold one with the key `id`.
pub open spec fn has_row(rows: Seq<ValidatedModel>, id: Seq<char>) -> bool {
    exists|i: int| 0 <= i < rows.len() && (#[trigger] rows[i]).record_id == id
}

/// The rows after one more is sent: it is added unless its key is there.
pub open spec fn insert_or_ignore(rows: Seq<ValidatedModel>, row: ValidatedModel) -> Seq<
    ValidatedModel,
> {
    if has_row(rows, row.record_id) {
        rows
    } else {
        rows.push(row)
    }
}

/// The rows after a batch is sent, row by row.
pub open spec fn merge_batch(rows: Seq<ValidatedModel>, batch: Seq<ValidatedModel>) -> Seq<
    ValidatedModel,
>
    decreases batch.len(),
{
    if batch.len() == 0 {
        rows
    } else {
        insert_or_ignore(merge_batch(rows, batch.drop_last()), batch.last())
    }
}

/// Whether no two rows share a key.
pub open spec fn keys_unique(rows: Seq<ValidatedModel>) -> bool {
    forall|i: int, j: int|
        0 <= i < j < rows.len() ==> (#[trigger] rows[i]).record_id != (#[trigger] rows[j]).record_id
}

/// Sending a batch keeps the rows that were there, in place, adds only rows
/// of the batch, keeps keys unique, and leaves a row under every key of the
/// batch.
pub proof fn lemma_merge_batch(rows: Seq<ValidatedModel>, batch: Seq<ValidatedModel>)
    ensures
        rows.len() <= merge_batch(rows, batch).len() <= rows.len() + batch.len(),
        merge_batch(rows, batch).take(rows.len() as int) == rows,
        forall|id: Seq<char>| has_row(rows, id) ==> has_row(merge_batch(rows, batch), id),
        forall|i: int|
            0 <= i < batch.len() ==> has_row(
                merge_batch(rows, batch),
                (#[trigger] batch[i]).record_id,
            ),
        forall|k: int|
            rows.len() <= k < merge_batch(rows, batch).len() ==> batch.contains(
                #[trigger] merge_batch(rows, batch)[k],
            ),
        keys_unique(rows) ==> keys_unique(merge_batch(rows, batch)),
    decreases batch.len(),
{
    let merged = merge_batch(rows, batch);
    if batch.len() == 0 {
        assert(rows.take(rows.len() as int) =~= rows);
    } else {
        let earlier = batch.drop_last();
        let before = merge_batch(rows, earlier);
        lemma_merge_batch(rows, earlier);
        assert(merged.take(rows.len() as int) =~= before.take(rows.len() as int));
        assert forall|id: Seq<char>| has_row(before, id) implies has_row(merged, id) by {
            let i = choose|i: int| 0 <= i < before.len() && (#[trigger] before[i]).record_id == id;
            assert(merged[i].record_id == id);
        }
        assert forall|i: int| 0 <= i < batch.len() implies has_row(
            merged,
            (#[trigger] batch[i]).record_id,
        ) by {
            if i < batch.len() - 1 {
                assert(earlier[i] == batch[i]);
            } else if !has_row(before, batch.last().record_id) {
                assert(merged[merged.len() - 1].record_id == batch[i].record_id);
            }
        }
        assert forall|k: int| rows.len() <= k < merged.len() implies batch.contains(
            #[trigger] merged[k],
        ) by {
            if k < before.len() {
                assert(earlier.contains(before[k]));
                let at = choose|at: int| 0 <= at < earlier.len() && earlier[at] == before[k];
                assert(batch[at] == merged[k]);
            } else {
                assert(batch[batch.len() - 1] == merged[k]);
            }
        }
        if keys_unique(rows) {
            assert forall|i: int, j: int| 0 <= i < j < merged.len() implies (
            #[trigger] merged[i]).record_id != (#[trigger] merged[j]).record_id by {
                if j < before.len() {
                    assert(before[i].record_id != before[j].record_id);
                } else {
                    assert(before[i].record_id != batch.last().record_id);
                }
            }
        }
    }
}

/// Sending rows whose keys are all there changes nothing.
pub proof fn lemma_merge_known(rows: Seq<ValidatedModel>, batch: Seq<ValidatedModel>)
    requires
        forall|i: int| 0 <= i < batch.len() ==> has_row(rows, (#[trigger] batch[i]).record_id),
    ensures
        merge_batch(rows, batch) == rows,
    decreases batch.len(),
{
    if batch.len() > 0 {
        let earlier = batch.drop_last();
        assert forall|i: int| 0 <= i < earlier.len() implies has_row(
            rows,
            (#[trigger] earlier[i]).record_id,
        ) by {
            assert(earlier[i] == batch[i]);
        }
        lemma_merge_known(rows, earlier);
        assert(batch[batch.len() - 1] == batch.last());
    }
}

/// Idempotence. Sending a batch twice leaves exactly the rows that sending
/// it once leaves: no row is there twice.
pub proof fn lemma_delivery_is_idempotent(rows: Seq<ValidatedModel>, batch: Seq<ValidatedModel>)
    ensures
        merge_batch(merge_batch(rows, batch), batch) == merge_batch(rows, batch),
{
    lemma_merge_batch(rows, batch);
    lemma_merge_known(merge_batch(rows, batch), batch);
}

/// A table held in memory that treats rows as the warehouse does. It stands
/// in for the warehouse where none is at hand.
#[derive(Debug)]
pub struct MemoryTable {
    table_name: String,
    rows: Vec<ValidatedRecord>,
}

/// The mathematical content of a [`MemoryTable`].
pub struct TableModel {
    pub table_name: Seq<char>,
    pub rows: Seq<ValidatedModel>,
}

impl View for MemoryTable {
    type V = TableModel;

    closed spec fn view(&self) -> TableModel {
        TableModel { table_name: self.table_name@, rows: self.rows.deep_view() }
    }
}

/// The table after a batch is sent to it: the batch is merged where it is
/// for this table, and refused as a whole where it is for another.
pub open spec fn after_insert(table: TableModel, batch_table: Seq<char>, batch: Seq<ValidatedModel>) -> TableModel {
    if batch_table == table.table_name {
        TableModel { rows: merge_batch(table.rows, batch), ..table }
    } else {
        table
    }
}

impl MemoryTable {
    /// Whether the table is sound: no two rows share a key.
    pub open spec fn wf(&self) -> bool {
        keys_unique(self@.rows)
    }

    /// An empty table of the given name.
    pub fn new(table_name: &str) -> (table: Self)
        ensures
            table.wf(),
            table@ == (TableModel { table_name: table_name@, rows: Seq::empty() }),
    {
        let table = MemoryTable { table_name: table_name.to_owned(), rows: Vec::new() };
        assert(table.rows.deep_view() =~= Seq::empty());
        table
    }

    /// The name of the table.
    pub fn table_name(&self) -> (name: &str)
        ensures
            name@ == self@.table_name,
    {
        self.table_name.as_str()
    }

    /// The rows of the table, in the order in which they arrived.
    pub fn rows(&self) -> (rows: &Vec<ValidatedRecord>)
        ensures
            rows.deep_view() == self@.rows,
    {
        &self.rows
    }

    /// The number of rows.
    pub fn len(&self) -> (count: usize)
        ensures
            count == self@.rows.len(),
    {
        self.rows.len()
    }

    /// Whether the table holds a row with the key `id`.
    pub fn contains(&self, id: &str) -> (yes: bool)
        ensures
            yes == has_row(self@.rows, id@),
    {
        let ghost rows = self.rows.deep_view();
        let mut i: usize = 0;
        while i < self.rows.len()
            invariant
                i <= self.rows.len(),
                rows == self.rows.deep_view(),
                forall|k: int| 0 <= k < i ==> (#[trigger] rows[k]).record_id != id@,
            decreases self.rows.len() - i,
        {
            if str_eq(self.rows[i].record_id.as_str(), id) {
                assert(rows[i as int].record_id == id@);
                return true;
            }
            i += 1;
        }
        false
    }

    /// Takes a batch as the warehouse would: each row is added unless its key
    /// is there already. A batch for another table is refused for good and
    /// changes nothing.
    pub fn insert_batch(&mut self, batch: &LoadBatch) -> (outcome: SubmitOutcome)
        requires
            old(self).wf(),
        ensures
            final(self).wf(),
            final(self)@ == after_insert(old(self)@, batch@.table_name, batch@.records),
            batch@.table_name == old(self)@.table_name ==> outcome@
                == crate::bigquery::loader::OutcomeModel::Acknowledged(Seq::empty()),
            batch@.table_name != old(self)@.table_name ==> outcome@
                == crate::bigquery::loader::OutcomeModel::Permanent(
                "batch is for another table"@,
            ),
    {
        if !str_eq(batch.table_name(), self.table_name.as_str()) {
            return SubmitOutcome::Permanent("batch is for another table".to_owned());
        }
        let records = batch.records();
        let ghost start = self.rows.deep_view();
        let ghost incoming = records.deep_view();
        let mut i: usize = 0;
        assert(incoming.take(0).len() == 0);
        while i < records.len()
            invariant
                i <= records.len(),
                incoming == records.deep_view(),
                self.table_name == old(self).table_name,
                self.rows.deep_view() == merge_batch(start, incoming.take(i as int)),
            decreases records.len() - i,
        {
            assert(incoming.take(i + 1).drop_last() =~= incoming.take(i as int));
            assert(incoming.take(i + 1).last() == incoming[i as int]);
            if !self.contains(records[i].record_id.as_str()) {
                let ghost before = self.rows.deep_view();
                self.rows.push(records[i].clone());
                assert(self.rows.deep_view() =~= before.push(incoming[i as int]));
            }
            i += 1;
        }
        assert(incoming.take(i as int) =~= incoming);
        proof {
            lemma_merge_batch(start, incoming);
        }
        let errors: Vec<crate::bigquery::loader::RowError> = Vec::new();
        assert(errors.deep_view() =~= Seq::empty());
        SubmitOutcome::Acknowledged(errors)
    }
}

} // verus!
