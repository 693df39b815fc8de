//! A named, typed, constrained slot of a table's schema.

use crate::cell::{CellValue, CellView, DataType};
use crate::constraint::ColumnConstraint;
use vstd::prelude::*;

verus! {

/// One column of a schema.
#[derive(Debug, PartialEq, Eq)]
pub struct Column {
    pub key: String,
    pub data_type: DataType,
    pub constraints: ColumnConstraint,
}

/// The mathematical value of a column.
pub struct ColumnView {
    pub key: Seq<char>,
    pub data_type: DataType,
    pub constraints: ColumnConstraint,
}

impl View for Column {
    type V = ColumnView;

    open spec fn view(&self) -> ColumnView {
        ColumnView { key: self.key@, data_type: self.data_type, constraints: self.constraints }
    }
}

impl DeepView for Column {
    type V = ColumnView;

    #[verifier::inline]
    open spec fn deep_view(&self) -> ColumnView {
        self.view()
    }
}

impl ColumnView {
    /// Whether the column takes the value: the value's type is the declared
    /// type, with no coercion between integers and floats.
    pub open spec fn accepts(self, value: CellView) -> bool {
        value.data_type() == self.data_type
    }
}

/// A column takes exactly the values of its declared type: a `String` column
/// the texts, an `Integer` column the integers, a `Float` column the floats,
/// and none takes a value of another variant.
pub proof fn lemma_accepts_exactly_matching(column: ColumnView, value: CellView)
    ensures
        column.accepts(value) <==> match column.data_type {
            DataType::String => value is String,
            DataType::Integer => value is Integer,
            DataType::Float => value is Float,
        },
{
}

impl Clone for Column {
    fn clone(&self) -> (r: Self)
        ensures
            r@ == self@,
    {
        Column { key: self.key.clone(), data_type: self.data_type, constraints: self.constraints }
    }
}

impl Column {
    /// A column with the given name, type and constraints.
    pub fn new(key: String, data_type: DataType, constraints: ColumnConstraint) -> (r: Self)
        ensures
            r == (Column { key, data_type, constraints }),
    {
        Self { key, data_type, constraints }
    }

    /// Whether the column takes the value.
    pub fn accepts_value(&self, cell_value: &CellValue) -> (r: bool)
        ensures
            r == self@.accepts(cell_value@),
    {
        match self.data_type {
            DataType::String => match cell_value {
                CellValue::String(_) => true,
                _ => false,
            },
            DataType::Integer => match cell_value {
                CellValue::Integer(_) => true,
                _ => false,
            },
            DataType::Float => match cell_value {
                CellValue::Float(_) => true,
                _ => false,
            },
        }
    }
}

} // verus!
