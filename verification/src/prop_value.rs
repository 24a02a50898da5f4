//! Decoded property values.

use vstd::prelude::*;
use crate::guid::Guid;
use crate::prop_type::PropType;

verus! {

/// The value of a property. Each member carries the payload of the storage
/// type of the same name.
#[derive(Clone, Debug, PartialEq)]
pub enum PropValue {
    /// A value whose type was not given.
    Unspecified,
    /// No value.
    Null,
    /// A signed 16-bit integer.
    Integer16(i16),
    /// A signed 32-bit integer.
    Integer32(i32),
    /// A 32-bit floating point number, as its IEEE 754 bit pattern.
    Floating32(u32),
    /// A 64-bit floating point number, as its IEEE 754 bit pattern.
    Floating64(u64),
    /// A count of ten-thousandths of a currency unit.
    Currency(i64),
    /// A floating point count of days, as its IEEE 754 bit pattern.
    FloatingTime(u64),
    /// An error code.
    ErrorCode(u32),
    /// A truth value.
    Boolean(bool),
    /// The bytes of an embedded object.
    Object(Vec<u8>),
    /// A signed 64-bit integer.
    Integer64(i64),
    /// Text that was stored in a code page.
    String8(String),
    /// Text that was stored as UTF-16.
    String(String),
    /// A count of 100-nanosecond intervals since 1601.
    Time(i64),
    /// An identifier.
    Guid(Guid),
    /// A byte string.
    Binary(Vec<u8>),
    /// Signed 16-bit integers.
    MultipleInteger16(Vec<i16>),
    /// Signed 32-bit integers.
    MultipleInteger32(Vec<i32>),
    /// 32-bit floating point numbers, as bit patterns.
    MultipleFloating32(Vec<u32>),
    /// 64-bit floating point numbers, as bit patterns.
    MultipleFloating64(Vec<u64>),
    /// Currency amounts.
    MultipleCurrency(Vec<i64>),
    /// Floating point day counts, as bit patterns.
    MultipleFloatingTime(Vec<u64>),
    /// Signed 64-bit integers.
    MultipleInteger64(Vec<i64>),
    /// Texts that were stored in a code page.
    MultipleString8(Vec<String>),
    /// Texts that were stored as UTF-16.
    MultipleString(Vec<String>),
    /// Times.
    MultipleTime(Vec<i64>),
    /// Identifiers.
    MultipleGuid(Vec<Guid>),
    /// Byte strings.
    MultipleBinary(Vec<Vec<u8>>),
}

/// The byte strings of an array, as sequences.
pub open spec fn byte_strings(values: Seq<Vec<u8>>) -> Seq<Seq<u8>> {
    Seq::new(values.len(), |i: int| values[i]@)
}

/// The texts of an array, as sequences of characters.
pub open spec fn texts(values: Seq<String>) -> Seq<Seq<char>> {
    Seq::new(values.len(), |i: int| values[i]@)
}

/// A property value as contracts speak of it: sequences in place of
/// vectors and strings.
pub enum PropValueView {
    Unspecified,
    Null,
    Integer16(i16),
    Integer32(i32),
    Floating32(u32),
    Floating64(u64),
    Currency(i64),
    FloatingTime(u64),
    ErrorCode(u32),
    Boolean(bool),
    Object(Seq<u8>),
    Integer64(i64),
    String8(Seq<char>),
    String(Seq<char>),
    Time(i64),
    Guid(Guid),
    Binary(Seq<u8>),
    MultipleInteger16(Seq<i16>),
    MultipleInteger32(Seq<i32>),
    MultipleFloating32(Seq<u32>),
    MultipleFloating64(Seq<u64>),
    MultipleCurrency(Seq<i64>),
    MultipleFloatingTime(Seq<u64>),
    MultipleInteger64(Seq<i64>),
    MultipleString8(Seq<Seq<char>>),
    MultipleString(Seq<Seq<char>>),
    MultipleTime(Seq<i64>),
    MultipleGuid(Seq<Guid>),
    MultipleBinary(Seq<Seq<u8>>),
}

impl PropValueView {
    /// The storage type whose payload this value is.
    pub open spec fn prop_type(self) -> PropType {
        match self {
            Self::Unspecified => PropType::Unspecified,
            Self::Null => PropType::Null,
            Self::Integer16(_) => PropType::Integer16,
            Self::Integer32(_) => PropType::Integer32,
            Self::Floating32(_) => PropType::Floating32,
            Self::Floating64(_) => PropType::Floating64,
            Self::Currency(_) => PropType::Currency,
            Self::FloatingTime(_) => PropType::FloatingTime,
            Self::ErrorCode(_) => PropType::ErrorCode,
            Self::Boolean(_) => PropType::Boolean,
            Self::Object(_) => PropType::Object,
            Self::Integer64(_) => PropType::Integer64,
            Self::String8(_) => PropType::String8,
            Self::String(_) => PropType::String,
            Self::Time(_) => PropType::Time,
            Self::Guid(_) => PropType::Guid,
            Self::Binary(_) => PropType::Binary,
            Self::MultipleInteger16(_) => PropType::MultipleInteger16,
            Self::MultipleInteger32(_) => PropType::MultipleInteger32,
            Self::MultipleFloating32(_) => PropType::MultipleFloating32,
            Self::MultipleFloating64(_) => PropType::MultipleFloating64,
            Self::MultipleCurrency(_) => PropType::MultipleCurrency,
            Self::MultipleFloatingTime(_) => PropType::MultipleFloatingTime,
            Self::MultipleInteger64(_) => PropType::MultipleInteger64,
            Self::MultipleString8(_) => PropType::MultipleString8,
            Self::MultipleString(_) => PropType::MultipleString,
            Self::MultipleTime(_) => PropType::MultipleTime,
            Self::MultipleGuid(_) => PropType::MultipleGuid,
            Self::MultipleBinary(_) => PropType::MultipleBinary,
        }
    }
}

impl View for PropValue {
    type V = PropValueView;

    open spec fn view(&self) -> PropValueView {
        match self {
            Self::Unspecified => PropValueView::Unspecified,
            Self::Null => PropValueView::Null,
            Self::Integer16(x) => PropValueView::Integer16(*x),
            Self::Integer32(x) => PropValueView::Integer32(*x),
            Self::Floating32(x) => PropValueView::Floating32(*x),
            Self::Floating64(x) => PropValueView::Floating64(*x),
            Self::Currency(x) => PropValueView::Currency(*x),
            Self::FloatingTime(x) => PropValueView::FloatingTime(*x),
            Self::ErrorCode(x) => PropValueView::ErrorCode(*x),
            Self::Boolean(x) => PropValueView::Boolean(*x),
            Self::Object(x) => PropValueView::Object(x@),
            Self::Integer64(x) => PropValueView::Integer64(*x),
            Self::String8(x) => PropValueView::String8(x@),
            Self::String(x) => PropValueView::String(x@),
            Self::Time(x) => PropValueView::Time(*x),
            Self::Guid(x) => PropValueView::Guid(*x),
            Self::Binary(x) => PropValueView::Binary(x@),
            Self::MultipleInteger16(x) => PropValueView::MultipleInteger16(x@),
            Self::MultipleInteger32(x) => PropValueView::MultipleInteger32(x@),
            Self::MultipleFloating32(x) => PropValueView::MultipleFloating32(x@),
            Self::MultipleFloating64(x) => PropValueView::MultipleFloating64(x@),
            Self::MultipleCurrency(x) => PropValueView::MultipleCurrency(x@),
            Self::MultipleFloatingTime(x) => PropValueView::MultipleFloatingTime(x@),
            Self::MultipleInteger64(x) => PropValueView::MultipleInteger64(x@),
            Self::MultipleString8(x) => PropValueView::MultipleString8(texts(x@)),
            Self::MultipleString(x) => PropValueView::MultipleString(texts(x@)),
            Self::MultipleTime(x) => PropValueView::MultipleTime(x@),
            Self::MultipleGuid(x) => PropValueView::MultipleGuid(x@),
            Self::MultipleBinary(x) => PropValueView::MultipleBinary(byte_strings(x@)),
        }
    }
}

impl PropValue {
    /// The storage type whose payload this value is.
    pub fn prop_type(&self) -> (r: PropType)
        ensures
            r == self@.prop_type(),
    {
        match self {
            Self::Unspecified => PropType::Unspecified,
            Self::Null => PropType::Null,
            Self::Integer16(_) => PropType::Integer16,
            Self::Integer32(_) => PropType::Integer32,
            Self::Floating32(_) => PropType::Floating32,
            Self::Floating64(_) => PropType::Floating64,
            Self::Currency(_) => PropType::Currency,
            Self::FloatingTime(_) => PropType::FloatingTime,
            Self::ErrorCode(_) => PropType::ErrorCode,
            Self::Boolean(_) => PropType::Boolean,
            Self::Object(_) => PropType::Object,
            Self::Integer64(_) => PropType::Integer64,
            Self::String8(_) => PropType::String8,
            Self::String(_) => PropType::String,
            Self::Time(_) => PropType::Time,
            Self::Guid(_) => PropType::Guid,
            Self::Binary(_) => PropType::Binary,
            Self::MultipleInteger16(_) => PropType::MultipleInteger16,
            Self::MultipleInteger32(_) => PropType::MultipleInteger32,
            Self::MultipleFloating32(_) => PropType::MultipleFloating32,
            Self::MultipleFloating64(_) => PropType::MultipleFloating64,
            Self::MultipleCurrency(_) => PropType::MultipleCurrency,
            Self::MultipleFloatingTime(_) => PropType::MultipleFloatingTime,
            Self::MultipleInteger64(_) => PropType::MultipleInteger64,
            Self::MultipleString8(_) => PropType::MultipleString8,
            Self::MultipleString(_) => PropType::MultipleString,
            Self::MultipleTime(_) => PropType::MultipleTime,
            Self::MultipleGuid(_) => PropType::MultipleGuid,
            Self::MultipleBinary(_) => PropType::MultipleBinary,
        }
    }
}

} // verus!
