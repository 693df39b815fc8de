//! Scalar cell values and their type tags.

use vstd::prelude::*;
use vstd::string::StringExecFns;

verus! {

/// The type tag of a cell: the declared type of a column, or the kind of a value.
#[derive(Clone, Copy, Debug, PartialEq, Eq, Hash, Structural)]
pub enum DataType {
    String,
    Integer,
    Float,
}

impl DataType {
    /// The name under which the type appears in messages.
    pub open spec fn name(self) -> Seq<char> {
        match self {
            DataType::String => "String"@,
            DataType::Integer => "Integer"@,
            DataType::Float => "Float"@,
        }
    }

    /// The type's name as text.
    pub fn to_string(&self) -> (r: String)
        ensures
            r@ == self.name(),
    {
        match self {
            DataType::String => String::from_str("String"),
            DataType::Integer => String::from_str("Integer"),
            DataType::Float => String::from_str("Float"),
        }
    }
}

/// Bit 63 of an IEEE 754 binary64 pattern: the sign.
pub const SIGN_BIT: u64 = 0x8000_0000_0000_0000;

/// A 64-bit floating-point number, held by its IEEE 754 binary64 bit pattern.
///
/// The store never computes with such a number: it keeps it, hands it back and
/// tells two of them apart, and for that the pattern is enough. Two numbers
/// are the same here exactly if their patterns are: zero and minus zero
/// differ, and a NaN is the same as itself.
#[derive(Clone, Copy, Debug, PartialEq, Eq, Hash, Structural)]
pub struct Float64 {
    pub bits: u64,
}

impl Float64 {
    /// The number with the given bit pattern.
    pub fn from_bits(bits: u64) -> (r: Float64)
        ensures
            r.bits == bits,
    {
        Float64 { bits }
    }

    /// The number's bit pattern.
    pub fn to_bits(&self) -> (r: u64)
        ensures
            r == self.bits,
    {
        self.bits
    }

    /// The pattern of the number with the opposite sign.
    pub open spec fn spec_negated(self) -> Float64 {
        Float64 { bits: self.bits ^ SIGN_BIT }
    }

    /// The number with the opposite sign: the same magnitude, the sign bit flipped.
    pub fn negated(&self) -> (r: Float64)
        ensures
            r == self.spec_negated(),
    {
        Float64 { bits: self.bits ^ SIGN_BIT }
    }
}

/// A single scalar stored under one column of one record.
#[derive(Debug, PartialEq, Eq)]
pub enum CellValue {
    String(String),
    Integer(i64),
    Float(Float64),
}

/// The mathematical value of a cell.
pub enum CellView {
    String(Seq<char>),
    Integer(i64),
    Float(Float64),
}

impl CellView {
    /// The type tag of the value.
    pub open spec fn data_type(self) -> DataType {
        match self {
            CellView::String(_) => DataType::String,
            CellView::Integer(_) => DataType::Integer,
            CellView::Float(_) => DataType::Float,
        }
    }
}

impl View for CellValue {
    type V = CellView;

    open spec fn view(&self) -> CellView {
        match self {
            CellValue::String(text) => CellView::String(text@),
            CellValue::Integer(number) => CellView::Integer(*number),
            CellValue::Float(number) => CellView::Float(*number),
        }
    }
}

impl DeepView for CellValue {
    type V = CellView;

    #[verifier::inline]
    open spec fn deep_view(&self) -> CellView {
        self.view()
    }
}

impl Clone for CellValue {
    fn clone(&self) -> (r: Self)
        ensures
            r@ == self@,
    {
        match self {
            CellValue::String(text) => CellValue::String(text.clone()),
            CellValue::Integer(number) => CellValue::Integer(*number),
            CellValue::Float(number) => CellValue::Float(*number),
        }
    }
}

impl CellValue {
    /// The type tag of the value.
    pub fn data_type(&self) -> (r: DataType)
        ensures
            r == self@.data_type(),
    {
        match self {
            CellValue::String(_) => DataType::String,
            CellValue::Integer(_) => DataType::Integer,
            CellValue::Float(_) => DataType::Float,
        }
    }

    /// The name of the value's type, as it appears in messages.
    pub fn to_string(&self) -> (r: String)
        ensures
            r@ == self@.data_type().name(),
    {
        self.data_type().to_string()
    }

    /// Whether two cells hold the same value: the same variant with the same payload.
    pub fn same_as(&self, other: &CellValue) -> (r: bool)
        ensures
            r == (self@ == other@),
    {
        match self {
            CellValue::String(a) => match other {
                CellValue::String(b) => *a == *b,
                _ => false,
            },
            CellValue::Integer(a) => match other {
                CellValue::Integer(b) => *a == *b,
                _ => false,
            },
            CellValue::Float(a) => match other {
                CellValue::Float(b) => a.bits == b.bits,
                _ => false,
            },
        }
    }
}

} // verus!
