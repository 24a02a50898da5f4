//! The storage types of MAPI property values.

use vstd::prelude::*;
use vstd::std_specs::cmp::PartialEqSpec;

verus! {

/// The storage type of a property value.
#[derive(Clone, Copy, Debug)]
pub enum PropType {
    /// No type given (`0x0000`).
    Unspecified,
    /// No value (`0x0001`).
    Null,
    /// Signed 16-bit integer (`0x0002`).
    Integer16,
    /// Signed 32-bit integer (`0x0003`).
    Integer32,
    /// 32-bit floating point number (`0x0004`).
    Floating32,
    /// 64-bit floating point number (`0x0005`).
    Floating64,
    /// Signed 64-bit count of ten-thousandths of a currency unit (`0x0006`).
    Currency,
    /// 64-bit floating point count of days (`0x0007`).
    FloatingTime,
    /// Unsigned 32-bit error code (`0x000A`).
    ErrorCode,
    /// Truth value (`0x000B`).
    Boolean,
    /// Embedded object (`0x000D`).
    Object,
    /// Signed 64-bit integer (`0x0014`).
    Integer64,
    /// Text in a single-byte or multi-byte code page (`0x001E`).
    String8,
    /// Text in UTF-16 (`0x001F`).
    String,
    /// Signed 64-bit count of 100-nanosecond intervals (`0x0040`).
    Time,
    /// 16-byte identifier (`0x0048`).
    Guid,
    /// Byte string (`0x0102`).
    Binary,
    /// Array of signed 16-bit integers (`0x1002`).
    MultipleInteger16,
    /// Array of signed 32-bit integers (`0x1003`).
    MultipleInteger32,
    /// Array of 32-bit floating point numbers (`0x1004`).
    MultipleFloating32,
    /// Array of 64-bit floating point numbers (`0x1005`).
    MultipleFloating64,
    /// Array of currency amounts (`0x1006`).
    MultipleCurrency,
    /// Array of floating point day counts (`0x1007`).
    MultipleFloatingTime,
    /// Array of signed 64-bit integers (`0x1014`).
    MultipleInteger64,
    /// Array of code-page texts (`0x101E`).
    MultipleString8,
    /// Array of UTF-16 texts (`0x101F`).
    MultipleString,
    /// Array of times (`0x1040`).
    MultipleTime,
    /// Array of identifiers (`0x1048`).
    MultipleGuid,
    /// Array of byte strings (`0x1102`).
    MultipleBinary,
    /// Any code that names no known type.
    Other(u16),
}

impl PropType {
    /// The member that `code` denotes; a code without a name of its own is kept
    /// in `Other`.
    pub open spec fn spec_from_base_type(code: u16) -> Self {
        if code == 0x0000 {
            Self::Unspecified
        } else if code == 0x0001 {
            Self::Null
        } else if code == 0x0002 {
            Self::Integer16
        } else if code == 0x0003 {
            Self::Integer32
        } else if code == 0x0004 {
            Self::Floating32
        } else if code == 0x0005 {
            Self::Floating64
        } else if code == 0x0006 {
            Self::Currency
        } else if code == 0x0007 {
            Self::FloatingTime
        } else if code == 0x000A {
            Self::ErrorCode
        } else if code == 0x000B {
            Self::Boolean
        } else if code == 0x000D {
            Self::Object
        } else if code == 0x0014 {
            Self::Integer64
        } else if code == 0x001E {
            Self::String8
        } else if code == 0x001F {
            Self::String
        } else if code == 0x0040 {
            Self::Time
        } else if code == 0x0048 {
            Self::Guid
        } else if code == 0x0102 {
            Self::Binary
        } else if code == 0x1002 {
            Self::MultipleInteger16
        } else if code == 0x1003 {
            Self::MultipleInteger32
        } else if code == 0x1004 {
            Self::MultipleFloating32
        } else if code == 0x1005 {
            Self::MultipleFloating64
        } else if code == 0x1006 {
            Self::MultipleCurrency
        } else if code == 0x1007 {
            Self::MultipleFloatingTime
        } else if code == 0x1014 {
            Self::MultipleInteger64
        } else if code == 0x101E {
            Self::MultipleString8
        } else if code == 0x101F {
            Self::MultipleString
        } else if code == 0x1040 {
            Self::MultipleTime
        } else if code == 0x1048 {
            Self::MultipleGuid
        } else if code == 0x1102 {
            Self::MultipleBinary
        } else {
            Self::Other(code)
        }
    }

    /// The code that this member stands for.
    pub open spec fn spec_to_base_type(&self) -> u16 {
        match self {
            Self::Unspecified => 0x0000,
            Self::Null => 0x0001,
            Self::Integer16 => 0x0002,
            Self::Integer32 => 0x0003,
            Self::Floating32 => 0x0004,
            Self::Floating64 => 0x0005,
            Self::Currency => 0x0006,
            Self::FloatingTime => 0x0007,
            Self::ErrorCode => 0x000A,
            Self::Boolean => 0x000B,
            Self::Object => 0x000D,
            Self::Integer64 => 0x0014,
            Self::String8 => 0x001E,
            Self::String => 0x001F,
            Self::Time => 0x0040,
            Self::Guid => 0x0048,
            Self::Binary => 0x0102,
            Self::MultipleInteger16 => 0x1002,
            Self::MultipleInteger32 => 0x1003,
            Self::MultipleFloating32 => 0x1004,
            Self::MultipleFloating64 => 0x1005,
            Self::MultipleCurrency => 0x1006,
            Self::MultipleFloatingTime => 0x1007,
            Self::MultipleInteger64 => 0x1014,
            Self::MultipleString8 => 0x101E,
            Self::MultipleString => 0x101F,
            Self::MultipleTime => 0x1040,
            Self::MultipleGuid => 0x1048,
            Self::MultipleBinary => 0x1102,
            Self::Other(code) => *code,
        }
    }

    /// Whether this is a member with a name of its own, or an `Other` whose
    /// code has none.
    pub open spec fn is_canonical(&self) -> bool {
        Self::spec_from_base_type(self.spec_to_base_type()) == *self
    }

    /// The member that `code` denotes; a code without a name of its own is kept
    /// in `Other`.
    #[verifier::when_used_as_spec(spec_from_base_type)]
    pub fn from_base_type(code: u16) -> (r: Self)
        ensures
            r == Self::spec_from_base_type(code),
    {
        if code == 0x0000 {
            Self::Unspecified
        } else if code == 0x0001 {
            Self::Null
        } else if code == 0x0002 {
            Self::Integer16
        } else if code == 0x0003 {
            Self::Integer32
        } else if code == 0x0004 {
            Self::Floating32
        } else if code == 0x0005 {
            Self::Floating64
        } else if code == 0x0006 {
            Self::Currency
        } else if code == 0x0007 {
            Self::FloatingTime
        } else if code == 0x000A {
            Self::ErrorCode
        } else if code == 0x000B {
            Self::Boolean
        } else if code == 0x000D {
            Self::Object
        } else if code == 0x0014 {
            Self::Integer64
        } else if code == 0x001E {
            Self::String8
        } else if code == 0x001F {
            Self::String
        } else if code == 0x0040 {
            Self::Time
        } else if code == 0x0048 {
            Self::Guid
        } else if code == 0x0102 {
            Self::Binary
        } else if code == 0x1002 {
            Self::MultipleInteger16
        } else if code == 0x1003 {
            Self::MultipleInteger32
        } else if code == 0x1004 {
            Self::MultipleFloating32
        } else if code == 0x1005 {
            Self::MultipleFloating64
        } else if code == 0x1006 {
            Self::MultipleCurrency
        } else if code == 0x1007 {
            Self::MultipleFloatingTime
        } else if code == 0x1014 {
            Self::MultipleInteger64
        } else if code == 0x101E {
            Self::MultipleString8
        } else if code == 0x101F {
            Self::MultipleString
        } else if code == 0x1040 {
            Self::MultipleTime
        } else if code == 0x1048 {
            Self::MultipleGuid
        } else if code == 0x1102 {
            Self::MultipleBinary
        } else {
            Self::Other(code)
        }
    }

    /// The code that this member stands for.
    #[verifier::when_used_as_spec(spec_to_base_type)]
    pub fn to_base_type(&self) -> (code: u16)
        ensures
            code == self.spec_to_base_type(),
    {
        match self {
            Self::Unspecified => 0x0000,
            Self::Null => 0x0001,
            Self::Integer16 => 0x0002,
            Self::Integer32 => 0x0003,
            Self::Floating32 => 0x0004,
            Self::Floating64 => 0x0005,
            Self::Currency => 0x0006,
            Self::FloatingTime => 0x0007,
            Self::ErrorCode => 0x000A,
            Self::Boolean => 0x000B,
            Self::Object => 0x000D,
            Self::Integer64 => 0x0014,
            Self::String8 => 0x001E,
            Self::String => 0x001F,
            Self::Time => 0x0040,
            Self::Guid => 0x0048,
            Self::Binary => 0x0102,
            Self::MultipleInteger16 => 0x1002,
            Self::MultipleInteger32 => 0x1003,
            Self::MultipleFloating32 => 0x1004,
            Self::MultipleFloating64 => 0x1005,
            Self::MultipleCurrency => 0x1006,
            Self::MultipleFloatingTime => 0x1007,
            Self::MultipleInteger64 => 0x1014,
            Self::MultipleString8 => 0x101E,
            Self::MultipleString => 0x101F,
            Self::MultipleTime => 0x1040,
            Self::MultipleGuid => 0x1048,
            Self::MultipleBinary => 0x1102,
            Self::Other(code) => *code,
        }
    }

    /// Every code survives the trip through the enumeration unchanged.
    pub proof fn lemma_code_round_trip(code: u16)
        ensures
            Self::spec_from_base_type(code).spec_to_base_type() == code,
            Self::spec_from_base_type(code).is_canonical(),
    {
    }

    /// A member survives the trip through its code: as the same member where it
    /// has a name of its own, and always as a member that `==` calls equal.
    pub proof fn lemma_member_round_trip(member: Self)
        ensures
            member !is Other ==> Self::spec_from_base_type(member.spec_to_base_type()) == member,
            member.eq_spec(&Self::spec_from_base_type(member.spec_to_base_type())),
    {
    }

    /// Members with names of their own that stand for the same code are the
    /// same member.
    pub proof fn lemma_codes_tell_members_apart(a: Self, b: Self)
        requires
            a !is Other,
            b !is Other,
            a.spec_to_base_type() == b.spec_to_base_type(),
        ensures
            a == b,
    {
    }
}

impl PartialEq for PropType {
    /// Two members are equal when their codes are.
    fn eq(&self, other: &Self) -> (r: bool) {
        self.to_base_type() == other.to_base_type()
    }
}

impl Eq for PropType {
}

impl vstd::std_specs::cmp::PartialEqSpecImpl for PropType {
    /// `==` is what `eq_spec` says.
    open spec fn obeys_eq_spec() -> bool {
        true
    }

    /// Two members are equal when their codes are.
    open spec fn eq_spec(&self, other: &Self) -> bool {
        self.spec_to_base_type() == other.spec_to_base_type()
    }
}

} // verus!
