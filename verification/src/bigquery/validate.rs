//! Validation of canonical records against the schema of a table.
//!
//! A record is first held to what every canonical record must be: a named
//! source, a timestamp that is a valid instant, a latitude and a longitude.
//! Then each column of the schema, in order, is looked up in the record. A
//! required column must have a value, and every value that is there must fit
//! the type of its column. The first defect found is the one reported. Values
//! that no column asks for are left out; the values that are kept are not
//! changed.

use crate::bigquery::schema::{
    find_table, FieldModel, FieldType, SchemaManager, SchemaModel, TableSchema,
};
use crate::datasources::record::{record_key, ClimateRecord, RecordModel};
use crate::models::number::{
    bits_finite, bits_within, Float64, LATITUDE_LIMIT_BITS, LONGITUDE_LIMIT_BITS,
};
use crate::models::value::{FieldValue, Fields, FieldsModel, ValueModel};
use crate::utils::error::{ClimateError, ErrorModel, IssueModel, RejectReason, ValidationIssue};
use crate::utils::text::{join, str_eq};
use crate::utils::time::{is_rfc3339, is_timestamp};
use vstd::prelude::*;
use vstd::string::*;

verus! {

/// What reading `text` as a JSON number gives: the bit pattern of the number
/// as a binary64, or nothing where `text` is no JSON number or names one that
/// no finite binary64 stands for.
pub uninterp spec fn json_number_bits(text: Seq<char>) -> Option<u64>;

/// Reads `text` with `serde_json::from_str` as a `serde_json::Number` and
/// gives the pattern of `Number::as_f64`. The contract claims only that the
/// answer depends on the text alone. (The reader takes a number only if a
/// finite binary64 stands for it.)
#[verifier::external_body]
fn parse_json_number(text: &str) -> (bits: Option<u64>)
    ensures
        bits == json_number_bits(text@),
{
    match serde_json::from_str::<serde_json::Number>(text) {
        Ok(number) => match number.as_f64() {
            Some(x) => Some(x.to_bits()),
            None => None,
        },
        Err(_) => None,
    }
}

/// Whether a value can be read as the type of a column, where `number` is
/// what reading the value as a JSON number gave, if the value is text. Text
/// passes as text. A number must be finite; an integer is a number; text is
/// a number where it reads as one. A timestamp is text that names a valid
/// instant. An integer column takes integers only.
pub open spec fn coercible_with(value: ValueModel, field_type: FieldType, number: Option<u64>) -> bool {
    match field_type {
        FieldType::Text => value is Text,
        FieldType::Float => match value {
            ValueModel::Float(bits) => bits_finite(bits),
            ValueModel::Integer(_) => true,
            ValueModel::Text(_) => number is Some,
            _ => false,
        },
        FieldType::Timestamp => match value {
            ValueModel::Text(text) => is_rfc3339(text),
            _ => false,
        },
        FieldType::Integer => value is Integer,
    }
}

/// Whether a value can be read as the type of a column.
pub open spec fn coercible(value: ValueModel, field_type: FieldType) -> bool {
    coercible_with(
        value,
        field_type,
        match value {
            ValueModel::Text(text) => json_number_bits(text),
            _ => None,
        },
    )
}

/// The value given under `name`: that of the last entry with the name.
pub open spec fn lookup_value(data: FieldsModel, name: Seq<char>) -> Option<ValueModel>
    decreases data.len(),
{
    if data.len() == 0 {
        None
    } else if data.last().0 == name {
        Some(data.last().1)
    } else {
        lookup_value(data.drop_last(), name)
    }
}

/// The value that a record has for the column `name`, if it has one. The
/// record's own attributes answer for the columns named after them, its
/// identifier `key` for `observation_id`, and the stamp for the two columns
/// that hold the time of processing; every other column is looked up among
/// the record's measurements, where a null counts as no value.
pub open spec fn column_value(
    record: RecordModel,
    key: Seq<char>,
    stamp: Seq<char>,
    name: Seq<char>,
) -> Option<ValueModel> {
    if name == "source_id"@ {
        Some(ValueModel::Text(record.source_id))
    } else if name == "timestamp"@ || name == "data_timestamp"@ {
        Some(ValueModel::Text(record.timestamp))
    } else if name == "latitude"@ {
        Some(ValueModel::Float(record.latitude))
    } else if name == "longitude"@ {
        Some(ValueModel::Float(record.longitude))
    } else if name == "location_name"@ {
        match record.location_name {
            Some(place) => Some(ValueModel::Text(place)),
            None => None,
        }
    } else if name == "observation_id"@ {
        Some(ValueModel::Text(key))
    } else if name == "processing_timestamp"@ || name == "ingestion_timestamp"@ {
        Some(ValueModel::Text(stamp))
    } else {
        match lookup_value(record.data, name) {
            Some(value) => if value is Null {
                None
            } else {
                Some(value)
            },
            None => None,
        }
    }
}

/// What is wrong with a record at one column, if anything.
pub open spec fn column_defect(
    field: FieldModel,
    record: RecordModel,
    key: Seq<char>,
    stamp: Seq<char>,
) -> Option<RejectReason> {
    match column_value(record, key, stamp, field.name) {
        None => if field.required {
            Some(RejectReason::MissingRequired)
        } else {
            None
        },
        Some(value) => if coercible(value, field.field_type) {
            None
        } else {
            Some(RejectReason::NotCoercible)
        },
    }
}

/// The first column, in the order of the schema, at which something is wrong
/// with the record, and what.
pub open spec fn first_column_defect(
    fields: Seq<FieldModel>,
    record: RecordModel,
    key: Seq<char>,
    stamp: Seq<char>,
) -> Option<(Seq<char>, RejectReason)>
    decreases fields.len(),
{
    if fields.len() == 0 {
        None
    } else {
        match first_column_defect(fields.drop_last(), record, key, stamp) {
            Some(defect) => Some(defect),
            None => match column_defect(fields.last(), record, key, stamp) {
                Some(reason) => Some((fields.last().name, reason)),
                None => None,
            },
        }
    }
}

/// What is wrong with the attributes of a record, if anything: the first of
/// an empty source, a timestamp that is no valid instant, a latitude and a
/// longitude out of range.
pub open spec fn attribute_defect(record: RecordModel) -> Option<(Seq<char>, RejectReason)> {
    if record.source_id.len() == 0 {
        Some(("source_id"@, RejectReason::MissingRequired))
    } else if !is_rfc3339(record.timestamp) {
        Some(("timestamp"@, RejectReason::NotCoercible))
    } else if !bits_within(record.latitude, LATITUDE_LIMIT_BITS) {
        Some(("latitude"@, RejectReason::OutOfRange))
    } else if !bits_within(record.longitude, LONGITUDE_LIMIT_BITS) {
        Some(("longitude"@, RejectReason::OutOfRange))
    } else {
        None
    }
}

/// The cell that a record fills in a column, if it has a value for it.
pub open spec fn row_cell(
    field: FieldModel,
    record: RecordModel,
    key: Seq<char>,
    stamp: Seq<char>,
) -> Option<(Seq<char>, ValueModel)> {
    match column_value(record, key, stamp, field.name) {
        Some(value) => Some((field.name, value)),
        None => None,
    }
}

/// `row_cell` for a fixed record.
pub open spec fn cell_of(record: RecordModel, key: Seq<char>, stamp: Seq<char>) -> spec_fn(
    FieldModel,
) -> Option<(Seq<char>, ValueModel)> {
    |field: FieldModel| row_cell(field, record, key, stamp)
}

/// The row that a record makes in a table: the cells of the columns for
/// which it has a value, in the order of the schema.
pub open spec fn expected_row(
    fields: Seq<FieldModel>,
    record: RecordModel,
    key: Seq<char>,
    stamp: Seq<char>,
) -> FieldsModel {
    fields.filter_map(cell_of(record, key, stamp))
}

/// A record that has passed validation for a table.
#[derive(Debug, PartialEq, Eq)]
pub struct ValidatedRecord {
    /// The stable identifier of the record.
    pub record_id: String,
    /// The table that the record was validated for.
    pub table_name: String,
    pub source_id: String,
    pub timestamp: String,
    pub latitude: Float64,
    pub longitude: Float64,
    pub location_name: Option<String>,
    /// The cells of the row, in the order of the schema.
    pub row: Fields,
    /// When the record was validated.
    pub processing_timestamp: String,
}

/// The mathematical content of a [`ValidatedRecord`].
pub struct ValidatedModel {
    pub record_id: Seq<char>,
    pub table_name: Seq<char>,
    pub source_id: Seq<char>,
    pub timestamp: Seq<char>,
    pub latitude: u64,
    pub longitude: u64,
    pub location_name: Option<Seq<char>>,
    pub row: FieldsModel,
    pub processing_timestamp: Seq<char>,
}

impl View for ValidatedRecord {
    type V = ValidatedModel;

    open spec fn view(&self) -> ValidatedModel {
        ValidatedModel {
            record_id: self.record_id@,
            table_name: self.table_name@,
            source_id: self.source_id@,
            timestamp: self.timestamp@,
            latitude: self.latitude.bits,
            longitude: self.longitude.bits,
            location_name: self.location_name.deep_view(),
            row: self.row.deep_view(),
            processing_timestamp: self.processing_timestamp@,
        }
    }
}

impl DeepView for ValidatedRecord {
    type V = ValidatedModel;

    open spec fn deep_view(&self) -> ValidatedModel {
        self@
    }
}

impl Clone for ValidatedRecord {
    fn clone(&self) -> (copy: Self)
        ensures
            copy@ == self@,
    {
        ValidatedRecord {
            record_id: self.record_id.clone(),
            table_name: self.table_name.clone(),
            source_id: self.source_id.clone(),
            timestamp: self.timestamp.clone(),
            latitude: self.latitude,
            longitude: self.longitude,
            location_name: match &self.location_name {
                Some(name) => Some(name.clone()),
                None => None,
            },
            row: crate::models::value::copy_fields(&self.row),
            processing_timestamp: self.processing_timestamp.clone(),
        }
    }
}

/// The record as validated for a table at the time `stamp`: its attributes
/// and its identifier, and the row that it makes.
pub open spec fn validated(schema: SchemaModel, record: RecordModel, stamp: Seq<char>) -> ValidatedModel {
    let key = record_key(record.source_id, record.timestamp, record.latitude, record.longitude);
    ValidatedModel {
        record_id: key,
        table_name: schema.table_name,
        source_id: record.source_id,
        timestamp: record.timestamp,
        latitude: record.latitude,
        longitude: record.longitude,
        location_name: record.location_name,
        row: expected_row(schema.fields, record, key, stamp),
        processing_timestamp: stamp,
    }
}

/// What validation of a record for a table makes of it: the validated record,
/// or the first defect, named with the record's identifier.
pub open spec fn validation_outcome(
    schema: SchemaModel,
    record: RecordModel,
    stamp: Seq<char>,
) -> Result<ValidatedModel, IssueModel> {
    let key = record_key(record.source_id, record.timestamp, record.latitude, record.longitude);
    match attribute_defect(record) {
        Some((field, reason)) => Err(IssueModel { record: key, field, reason }),
        None => match first_column_defect(schema.fields, record, key, stamp) {
            Some((field, reason)) => Err(IssueModel { record: key, field, reason }),
            None => Ok(validated(schema, record, stamp)),
        },
    }
}

/// A defect found among the first columns of a schema is the first defect of
/// the whole schema.
pub proof fn lemma_defect_in_prefix(
    fields: Seq<FieldModel>,
    record: RecordModel,
    key: Seq<char>,
    stamp: Seq<char>,
    k: int,
)
    requires
        0 <= k <= fields.len(),
        first_column_defect(fields.take(k), record, key, stamp) is Some,
    ensures
        first_column_defect(fields, record, key, stamp) == first_column_defect(
            fields.take(k),
            record,
            key,
            stamp,
        ),
    decreases fields.len() - k,
{
    if k < fields.len() {
        assert(fields.take(k + 1).drop_last() =~= fields.take(k));
        lemma_defect_in_prefix(fields, record, key, stamp, k + 1);
    } else {
        assert(fields.take(k) =~= fields);
    }
}

/// The value given under `name`, if there is one.
pub fn lookup<'a>(data: &'a Fields, name: &str) -> (found: Option<&'a FieldValue>)
    ensures
        found.deep_view() == lookup_value(data.deep_view(), name@),
{
    let ghost model = data.deep_view();
    let mut i: usize = data.len();
    assert(model.take(i as int) =~= model);
    while i > 0
        invariant
            i <= data.len(),
            model == data.deep_view(),
            lookup_value(model, name@) == lookup_value(model.take(i as int), name@),
        decreases i,
    {
        i -= 1;
        assert(model.take(i + 1).last() == model[i as int]);
        assert(model.take(i + 1).drop_last() =~= model.take(i as int));
        if str_eq(data[i].0.as_str(), name) {
            return Some(&data[i].1);
        }
    }
    assert(model.take(0).len() == 0);
    None
}

fn column_of(record: &ClimateRecord, key: &str, stamp: &str, name: &str) -> (cell: Option<
    FieldValue,
>)
    ensures
        cell.deep_view() == column_value(record@, key@, stamp@, name@),
{
    if str_eq(name, "source_id") {
        Some(FieldValue::Text(record.source_id.clone()))
    } else if str_eq(name, "timestamp") || str_eq(name, "data_timestamp") {
        Some(FieldValue::Text(record.timestamp.clone()))
    } else if str_eq(name, "latitude") {
        Some(FieldValue::Float(record.latitude))
    } else if str_eq(name, "longitude") {
        Some(FieldValue::Float(record.longitude))
    } else if str_eq(name, "location_name") {
        match &record.location_name {
            Some(place) => Some(FieldValue::Text(place.clone())),
            None => None,
        }
    } else if str_eq(name, "observation_id") {
        Some(FieldValue::Text(key.to_owned()))
    } else if str_eq(name, "processing_timestamp") || str_eq(name, "ingestion_timestamp") {
        Some(FieldValue::Text(stamp.to_owned()))
    } else {
        match lookup(&record.data, name) {
            Some(value) => if value.is_null() {
                None
            } else {
                Some(value.clone())
            },
            None => None,
        }
    }
}

/// Whether a value can be read as the type of a column, where `number` is
/// what reading the value as a JSON number gave, if the value is text.
pub fn value_fits_with(value: &FieldValue, field_type: FieldType, number: Option<u64>) -> (yes: bool)
    ensures
        yes == coercible_with(value@, field_type, number),
{
    match field_type {
        FieldType::Text => match value {
            FieldValue::Text(_) => true,
            _ => false,
        },
        FieldType::Float => match value {
            FieldValue::Float(number) => number.is_finite(),
            FieldValue::Integer(_) => true,
            FieldValue::Text(_) => number.is_some(),
            _ => false,
        },
        FieldType::Timestamp => match value {
            FieldValue::Text(text) => is_timestamp(text.as_str()),
            _ => false,
        },
        FieldType::Integer => match value {
            FieldValue::Integer(_) => true,
            _ => false,
        },
    }
}

/// Whether a value can be read as the type of a column.
pub fn value_fits(value: &FieldValue, field_type: FieldType) -> (yes: bool)
    ensures
        yes == coercible(value@, field_type),
{
    let number = match value {
        FieldValue::Text(text) => match field_type {
            FieldType::Float => parse_json_number(text.as_str()),
            _ => None,
        },
        _ => None,
    };
    value_fits_with(value, field_type, number)
}

fn issue(key: String, field: &str, reason: RejectReason) -> (found: ValidationIssue)
    ensures
        found@ == (IssueModel { record: key@, field: field@, reason }),
{
    ValidationIssue { record: key, field: field.to_owned(), reason }
}

/// Validates a record for the table of `schema`, stamping it with the time
/// of processing. The record itself is left as it is.
pub fn validate_against(schema: &TableSchema, record: &ClimateRecord, processing_timestamp: &str) -> (outcome:
    Result<ValidatedRecord, ValidationIssue>)
    ensures
        match validation_outcome(schema@, record@, processing_timestamp@) {
            Ok(valid) => outcome matches Ok(v) && v@ == valid,
            Err(defect) => outcome matches Err(e) && e@ == defect,
        },
{
    let key = record.record_id();
    if record.source_id.as_str().is_empty() {
        return Err(issue(key, "source_id", RejectReason::MissingRequired));
    }
    if !is_timestamp(record.timestamp.as_str()) {
        return Err(issue(key, "timestamp", RejectReason::NotCoercible));
    }
    if !record.latitude.is_latitude() {
        return Err(issue(key, "latitude", RejectReason::OutOfRange));
    }
    if !record.longitude.is_longitude() {
        return Err(issue(key, "longitude", RejectReason::OutOfRange));
    }
    let ghost fields = schema.fields.deep_view();
    let ghost r = record@;
    let ghost k = key@;
    let ghost st = processing_timestamp@;
    let mut row: Fields = Vec::new();
    let mut i: usize = 0;
    assert(fields.take(0).len() == 0);
    while i < schema.fields.len()
        invariant
            i <= schema.fields.len(),
            fields == schema.fields.deep_view(),
            r == record@,
            k == key@,
            st == processing_timestamp@,
            k == record_key(r.source_id, r.timestamp, r.latitude, r.longitude),
            attribute_defect(r) is None,
            first_column_defect(fields.take(i as int), r, k, st) is None,
            row.deep_view() == expected_row(fields.take(i as int), r, k, st),
        decreases schema.fields.len() - i,
    {
        let field = &schema.fields[i];
        let cell = column_of(record, key.as_str(), processing_timestamp, field.name.as_str());
        proof {
            assert(fields[i as int] == field@);
            assert(fields.take(i + 1).drop_last() =~= fields.take(i as int));
            assert(fields.take(i + 1).last() == fields[i as int]);
            fields.lemma_filter_map_take_succ(cell_of(r, k, st), i as int);
        }
        match cell {
            None => {
                if field.required {
                    proof {
                        lemma_defect_in_prefix(fields, r, k, st, i + 1);
                    }
                    return Err(issue(key, field.name.as_str(), RejectReason::MissingRequired));
                }
            },
            Some(value) => {
                if !value_fits(&value, field.field_type) {
                    proof {
                        lemma_defect_in_prefix(fields, r, k, st, i + 1);
                    }
                    return Err(issue(key, field.name.as_str(), RejectReason::NotCoercible));
                }
                let ghost before = row.deep_view();
                row.push((field.name.clone(), value));
                assert(row.deep_view() =~= before + seq![(field@.name, value@)]);
            },
        }
        i += 1;
    }
    assert(fields.take(i as int) =~= fields);
    Ok(
        ValidatedRecord {
            record_id: key,
            table_name: schema.table_name.clone(),
            source_id: record.source_id.clone(),
            timestamp: record.timestamp.clone(),
            latitude: record.latitude,
            longitude: record.longitude,
            location_name: match &record.location_name {
                Some(place) => Some(place.clone()),
                None => None,
            },
            row,
            processing_timestamp: processing_timestamp.to_owned(),
        },
    )
}

/// What [`SchemaManager::validate`] returns: the error of an unknown table,
/// or what validation against the table's schema makes of the record.
pub open spec fn registry_outcome(
    tables: Seq<SchemaModel>,
    record: RecordModel,
    table_name: Seq<char>,
    stamp: Seq<char>,
) -> Result<ValidatedModel, ErrorModel> {
    match find_table(tables, table_name) {
        None => Err(ErrorModel::ConfigError("unknown table: "@ + table_name)),
        Some(schema) => match validation_outcome(schema, record, stamp) {
            Ok(valid) => Ok(valid),
            Err(defect) => Err(ErrorModel::ValidationError(defect)),
        },
    }
}

impl SchemaManager {
    /// Validates a record for the table `table_name`, stamping it with the
    /// time of processing. An unknown table is a configuration error; a
    /// defect of the record is a validation error that names the record, the
    /// field and the reason. The record itself is left as it is.
    pub fn validate(&self, record: &ClimateRecord, table_name: &str, processing_timestamp: &str) -> (outcome:
        Result<ValidatedRecord, ClimateError>)
        ensures
            match registry_outcome(self@, record@, table_name@, processing_timestamp@) {
                Ok(valid) => outcome matches Ok(v) && v@ == valid,
                Err(error) => outcome matches Err(e) && e@ == error,
            },
    {
        match self.schema_for(table_name) {
            None => Err(ClimateError::ConfigError(join("unknown table: ", table_name))),
            Some(schema) => match validate_against(schema, record, processing_timestamp) {
                Ok(valid) => Ok(valid),
                Err(defect) => Err(ClimateError::ValidationError(defect)),
            },
        }
    }
}

/// What the first defect is: nothing where no column has a defect; else the
/// defect of a column before which no column has one.
pub proof fn lemma_first_defect(
    fields: Seq<FieldModel>,
    record: RecordModel,
    key: Seq<char>,
    stamp: Seq<char>,
)
    ensures
        match first_column_defect(fields, record, key, stamp) {
            None => forall|i: int|
                0 <= i < fields.len() ==> column_defect(#[trigger] fields[i], record, key, stamp)
                    is None,
            Some((name, reason)) => exists|j: int|
                {
                    &&& 0 <= j < fields.len()
                    &&& name == (#[trigger] fields[j]).name
                    &&& column_defect(fields[j], record, key, stamp) == Some(reason)
                    &&& forall|l: int|
                        0 <= l < j ==> column_defect(#[trigger] fields[l], record, key, stamp)
                            is None
                },
        },
    decreases fields.len(),
{
    if fields.len() > 0 {
        let rest = fields.drop_last();
        lemma_first_defect(rest, record, key, stamp);
        match first_column_defect(rest, record, key, stamp) {
            Some((name, reason)) => {
                let j = choose|j: int|
                    {
                        &&& 0 <= j < rest.len()
                        &&& name == (#[trigger] rest[j]).name
                        &&& column_defect(rest[j], record, key, stamp) == Some(reason)
                        &&& forall|l: int|
                            0 <= l < j ==> column_defect(#[trigger] rest[l], record, key, stamp)
                                is None
                    };
                assert(fields[j] == rest[j]);
                assert forall|l: int| 0 <= l < j implies column_defect(
                    #[trigger] fields[l],
                    record,
                    key,
                    stamp,
                ) is None by {
                    assert(fields[l] == rest[l]);
                }
            },
            None => {
                assert forall|l: int| 0 <= l < fields.len() - 1 implies column_defect(
                    #[trigger] fields[l],
                    record,
                    key,
                    stamp,
                ) is None by {
                    assert(fields[l] == rest[l]);
                }
                assert(fields[fields.len() - 1] == fields.last());
            },
        }
    }
}

/// A cell that the record has for a column stands in the row.
pub proof fn lemma_row_holds_cell(
    fields: Seq<FieldModel>,
    record: RecordModel,
    key: Seq<char>,
    stamp: Seq<char>,
    i: int,
)
    requires
        0 <= i < fields.len(),
        row_cell(fields[i], record, key, stamp) is Some,
    ensures
        expected_row(fields, record, key, stamp).contains(
            row_cell(fields[i], record, key, stamp)->0,
        ),
    decreases fields.len(),
{
    let f = cell_of(record, key, stamp);
    let cell = row_cell(fields[i], record, key, stamp)->0;
    let row = fields.filter_map(f);
    let rest = fields.drop_last();
    let rest_row = rest.filter_map(f);
    if i == fields.len() - 1 {
        assert(row =~= rest_row + seq![cell]);
        assert(row[row.len() - 1] == cell);
    } else {
        assert(rest[i] == fields[i]);
        lemma_row_holds_cell(rest, record, key, stamp, i);
        let at = choose|at: int| 0 <= at < rest_row.len() && rest_row[at] == cell;
        assert(row[at] == cell);
    }
}

/// A record that is canonical and has no defect at any column is accepted.
/// What comes back has the record's identifier and attributes, the stamp as
/// its time of processing, and a row that holds, for every column, exactly the
/// value that the record has for it: nothing is changed, and nothing is added
/// but the stamp.
pub proof fn lemma_sound_record_is_accepted(
    schema: SchemaModel,
    record: RecordModel,
    stamp: Seq<char>,
)
    requires
        attribute_defect(record) is None,
        forall|i: int|
            0 <= i < schema.fields.len() ==> column_defect(
                #[trigger] schema.fields[i],
                record,
                record_key(record.source_id, record.timestamp, record.latitude, record.longitude),
                stamp,
            ) is None,
    ensures
        validation_outcome(schema, record, stamp) == Ok::<ValidatedModel, IssueModel>(
            validated(schema, record, stamp),
        ),
        validated(schema, record, stamp).source_id == record.source_id,
        validated(schema, record, stamp).timestamp == record.timestamp,
        validated(schema, record, stamp).latitude == record.latitude,
        validated(schema, record, stamp).longitude == record.longitude,
        validated(schema, record, stamp).location_name == record.location_name,
        validated(schema, record, stamp).processing_timestamp == stamp,
        forall|i: int|
            0 <= i < schema.fields.len() ==> (#[trigger] column_value(
                record,
                validated(schema, record, stamp).record_id,
                stamp,
                schema.fields[i].name,
            ) matches Some(value) ==> validated(schema, record, stamp).row.contains(
                (schema.fields[i].name, value),
            )),
        forall|cell: (Seq<char>, ValueModel)|
            #[trigger] validated(schema, record, stamp).row.contains(cell) ==> column_value(
                record,
                validated(schema, record, stamp).record_id,
                stamp,
                cell.0,
            ) == Some(cell.1),
{
    let key = record_key(record.source_id, record.timestamp, record.latitude, record.longitude);
    let fields = schema.fields;
    lemma_first_defect(fields, record, key, stamp);
    let row = expected_row(fields, record, key, stamp);
    assert forall|i: int| 0 <= i < fields.len() implies (#[trigger] column_value(
        record,
        key,
        stamp,
        fields[i].name,
    ) matches Some(value) ==> row.contains((fields[i].name, value))) by {
        if column_value(record, key, stamp, fields[i].name) is Some {
            lemma_row_holds_cell(fields, record, key, stamp, i);
        }
    }
    assert forall|cell: (Seq<char>, ValueModel)| #[trigger] row.contains(cell) implies column_value(
        record,
        key,
        stamp,
        cell.0,
    ) == Some(cell.1) by {
        fields.lemma_filter_map_contains(cell_of(record, key, stamp), cell);
    }
}

/// A record with a defect at some column is rejected. The issue names the
/// record, and a field at which the record is defective with the reason: an
/// attribute of the record, or the first defective column of the schema.
pub proof fn lemma_defective_record_is_rejected(
    schema: SchemaModel,
    record: RecordModel,
    stamp: Seq<char>,
    i: int,
)
    requires
        0 <= i < schema.fields.len(),
        column_defect(
            schema.fields[i],
            record,
            record_key(record.source_id, record.timestamp, record.latitude, record.longitude),
            stamp,
        ) is Some,
    ensures
        validation_outcome(schema, record, stamp) matches Err(issue) && {
            let key = record_key(
                record.source_id,
                record.timestamp,
                record.latitude,
                record.longitude,
            );
            &&& issue.record == key
            &&& attribute_defect(record) == Some((issue.field, issue.reason)) || exists|j: int|
                {
                    &&& 0 <= j <= i
                    &&& issue.field == (#[trigger] schema.fields[j]).name
                    &&& column_defect(schema.fields[j], record, key, stamp) == Some(issue.reason)
                }
            &&& (attribute_defect(record) is None && (forall|l: int|
                0 <= l < i ==> column_defect(#[trigger] schema.fields[l], record, key, stamp)
                    is None)) ==> {
                &&& issue.field == schema.fields[i].name
                &&& Some(issue.reason) == column_defect(schema.fields[i], record, key, stamp)
            }
        },
{
    let key = record_key(record.source_id, record.timestamp, record.latitude, record.longitude);
    lemma_first_defect(schema.fields, record, key, stamp);
}

/// A record whose latitude or longitude is out of range is rejected for every
/// table, and the issue names the coordinate.
pub proof fn lemma_coordinate_out_of_range(schema: SchemaModel, record: RecordModel, stamp: Seq<char>)
    requires
        record.source_id.len() > 0,
        is_rfc3339(record.timestamp),
        !bits_within(record.latitude, LATITUDE_LIMIT_BITS) || !bits_within(
            record.longitude,
            LONGITUDE_LIMIT_BITS,
        ),
    ensures
        validation_outcome(schema, record, stamp) matches Err(issue) && {
            &&& issue.reason == RejectReason::OutOfRange
            &&& issue.field == if !bits_within(record.latitude, LATITUDE_LIMIT_BITS) {
                "latitude"@
            } else {
                "longitude"@
            }
        },
{
}

} // verus!
