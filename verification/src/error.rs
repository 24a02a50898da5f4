//! The errors of the TNEF and compound-file decoders.

use vstd::prelude::*;
use crate::binread::IoFailure;
use crate::prop_type::PropType;

verus! {

/// Why a message could not be decoded.
#[derive(Debug)]
#[allow(inconsistent_fields)]
pub enum TnefReadError {
    /// The input could not be read.
    Io(IoFailure),
    /// The stream does not start with the TNEF signature.
    Signature { expected: u32, obtained: u32 },
    /// An attribute declares a negative length.
    LengthConversion { obtained: i32 },
    /// The checksum of an attribute is not the sum of its bytes.
    ChecksumMismatch { obtained: u16, calculated: u16 },
    /// The kind of a named property's identifier is neither number nor string.
    InvalidIdType { obtained: u32 },
    /// The name of a named property is not well-formed UTF-16.
    InvalidStringId { obtained: Vec<u16> },
    /// A Boolean value is neither 0 nor 1.
    InvalidBoolean { obtained: u8 },
    /// A single-valued type declares a number of values other than one.
    MultipleValuesSingleType { prop_type: PropType, count: u32 },
    /// A UTF-16 text value is not well-formed.
    InvalidString { obtained: Vec<u16> },
    /// A UTF-16 text value declares an odd number of bytes.
    OddStringLength { byte_length: usize },
    /// The storage type cannot appear where it was found.
    InvalidPropertyType { property_type: u16 },
    /// A Boolean value that takes two bytes is neither 0 nor 1.
    InvalidBooleanWord { obtained: u16 },
    /// An 8-bit text value could not be decoded to its end in its encoding.
    InvalidString8 { obtained: Vec<u8> },
    /// The storage type names a code page that has no decoder.
    UnknownCodepage { code_page: u16 },
}

/// A decoding error as contracts speak of it: sequences in place of vectors.
#[allow(inconsistent_fields)]
pub enum TnefReadErrorView {
    Io(IoFailure),
    Signature { expected: u32, obtained: u32 },
    LengthConversion { obtained: i32 },
    ChecksumMismatch { obtained: u16, calculated: u16 },
    InvalidIdType { obtained: u32 },
    InvalidStringId { obtained: Seq<u16> },
    InvalidBoolean { obtained: u8 },
    MultipleValuesSingleType { prop_type: PropType, count: u32 },
    InvalidString { obtained: Seq<u16> },
    OddStringLength { byte_length: usize },
    InvalidPropertyType { property_type: u16 },
    InvalidBooleanWord { obtained: u16 },
    InvalidString8 { obtained: Seq<u8> },
    UnknownCodepage { code_page: u16 },
}

impl View for TnefReadError {
    type V = TnefReadErrorView;

    open spec fn view(&self) -> TnefReadErrorView {
        match self {
            Self::Io(failure) => TnefReadErrorView::Io(*failure),
            Self::Signature { expected, obtained } => TnefReadErrorView::Signature {
                expected: *expected,
                obtained: *obtained,
            },
            Self::LengthConversion { obtained } => TnefReadErrorView::LengthConversion {
                obtained: *obtained,
            },
            Self::ChecksumMismatch { obtained, calculated } => TnefReadErrorView::ChecksumMismatch {
                obtained: *obtained,
                calculated: *calculated,
            },
            Self::InvalidIdType { obtained } => TnefReadErrorView::InvalidIdType {
                obtained: *obtained,
            },
            Self::InvalidStringId { obtained } => TnefReadErrorView::InvalidStringId {
                obtained: obtained@,
            },
            Self::InvalidBoolean { obtained } => TnefReadErrorView::InvalidBoolean {
                obtained: *obtained,
            },
            Self::MultipleValuesSingleType { prop_type, count } => {
                TnefReadErrorView::MultipleValuesSingleType { prop_type: *prop_type, count: *count }
            },
            Self::InvalidString { obtained } => TnefReadErrorView::InvalidString {
                obtained: obtained@,
            },
            Self::OddStringLength { byte_length } => TnefReadErrorView::OddStringLength {
                byte_length: *byte_length,
            },
            Self::InvalidPropertyType { property_type } => TnefReadErrorView::InvalidPropertyType {
                property_type: *property_type,
            },
            Self::InvalidBooleanWord { obtained } => TnefReadErrorView::InvalidBooleanWord {
                obtained: *obtained,
            },
            Self::InvalidString8 { obtained } => TnefReadErrorView::InvalidString8 {
                obtained: obtained@,
            },
            Self::UnknownCodepage { code_page } => TnefReadErrorView::UnknownCodepage {
                code_page: *code_page,
            },
        }
    }
}

impl TnefReadErrorView {
    /// Whether the error came from the compound file that holds the input
    /// and not from the input itself.
    pub open spec fn from_container(self) -> bool {
        self matches TnefReadErrorView::Io(IoFailure::Container(_))
    }
}

/// The error of an input that ends inside a value.
pub open spec fn end_of_input() -> TnefReadErrorView {
    TnefReadErrorView::Io(IoFailure::UnexpectedEof)
}

} // verus!
