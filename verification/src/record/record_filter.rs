//! Typed equality filters on record columns.

use vstd::prelude::*;

use crate::text::str_chars;

verus! {

/// A value that a column is compared with. A real number is kept as its
/// IEEE-754 bit pattern.
#[derive(Debug, Clone)]
pub enum FilterValue {
    Text(String),
    Integer(i64),
    Real(u64),
    Null,
}

/// `column = value`, one conjunct of a query.
#[derive(Debug, Clone)]
pub struct RecordFilter {
    pub column: &'static str,
    pub value: FilterValue,
}

impl FilterValue {
    /// An identical copy of the value.
    pub fn duplicate(&self) -> (r: Self)
        ensures
            r == *self,
    {
        match self {
            FilterValue::Text(t) => FilterValue::Text(t.clone()),
            FilterValue::Integer(n) => FilterValue::Integer(*n),
            FilterValue::Real(b) => FilterValue::Real(*b),
            FilterValue::Null => FilterValue::Null,
        }
    }
}

impl RecordFilter {
    /// A filter on a text column.
    pub fn text(column: &'static str, value: &str) -> (r: Self)
        ensures
            r.column == column,
            r.value matches FilterValue::Text(t) && t@ == value@,
    {
        let chars = str_chars(value);
        let value = crate::text::string_from_chars(chars.as_slice());
        RecordFilter { column, value: FilterValue::Text(value) }
    }

    /// A filter on an integer column.
    pub fn integer(column: &'static str, value: i64) -> (r: Self)
        ensures
            r.column == column,
            r.value == FilterValue::Integer(value),
    {
        RecordFilter { column, value: FilterValue::Integer(value) }
    }

    /// A filter on a real column, given by the bit pattern of the number.
    pub fn real_bits(column: &'static str, bits: u64) -> (r: Self)
        ensures
            r.column == column,
            r.value == FilterValue::Real(bits),
    {
        RecordFilter { column, value: FilterValue::Real(bits) }
    }

    /// A filter that matches a NULL column.
    pub fn null(column: &'static str) -> (r: Self)
        ensures
            r.column == column,
            r.value == FilterValue::Null,
    {
        RecordFilter { column, value: FilterValue::Null }
    }
}

} // verus!
