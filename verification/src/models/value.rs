//! Typed values of a record's fields.

use crate::models::number::Float64;
use vstd::prelude::*;

verus! {

/// One value of a record: what a JSON scalar can hold.
#[derive(Debug, PartialEq, Eq)]
pub enum FieldValue {
    Null,
    Bool(bool),
    Integer(i64),
    Float(Float64),
    Text(String),
}

/// The mathematical content of a [`FieldValue`]; a float is its bit pattern.
pub enum ValueModel {
    Null,
    Bool(bool),
    Integer(i64),
    Float(u64),
    Text(Seq<char>),
}

impl View for FieldValue {
    type V = ValueModel;

    open spec fn view(&self) -> ValueModel {
        match self {
            FieldValue::Null => ValueModel::Null,
            FieldValue::Bool(b) => ValueModel::Bool(*b),
            FieldValue::Integer(n) => ValueModel::Integer(*n),
            FieldValue::Float(x) => ValueModel::Float(x.bits),
            FieldValue::Text(s) => ValueModel::Text(s@),
        }
    }
}

impl DeepView for FieldValue {
    type V = ValueModel;

    open spec fn deep_view(&self) -> ValueModel {
        self@
    }
}

impl Clone for FieldValue {
    fn clone(&self) -> (copy: Self)
        ensures
            copy == *self,
    {
        match self {
            FieldValue::Null => FieldValue::Null,
            FieldValue::Bool(b) => FieldValue::Bool(*b),
            FieldValue::Integer(n) => FieldValue::Integer(*n),
            FieldValue::Float(x) => FieldValue::Float(*x),
            FieldValue::Text(s) => FieldValue::Text(s.clone()),
        }
    }
}

impl FieldValue {
    /// Whether the value is null.
    pub fn is_null(&self) -> (yes: bool)
        ensures
            yes == (self@ is Null),
    {
        match self {
            FieldValue::Null => true,
            _ => false,
        }
    }
}

/// The named values of a record, in the order in which they were given.
pub type Fields = Vec<(String, FieldValue)>;

/// The mathematical content of [`Fields`].
pub type FieldsModel = Seq<(Seq<char>, ValueModel)>;

/// A copy of the named values.
pub fn copy_fields(fields: &Fields) -> (copy: Fields)
    ensures
        copy.deep_view() == fields.deep_view(),
{
    let mut copy: Fields = Vec::new();
    let mut i: usize = 0;
    while i < fields.len()
        invariant
            i <= fields.len(),
            copy.len() == i,
            forall|j: int| 0 <= j < i ==> copy[j].deep_view() == fields[j].deep_view(),
        decreases fields.len() - i,
    {
        copy.push((fields[i].0.clone(), fields[i].1.clone()));
        i += 1;
    }
    assert(copy.deep_view() =~= fields.deep_view());
    copy
}

} // verus!
