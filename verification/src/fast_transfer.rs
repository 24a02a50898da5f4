//! The fast-transfer stream: chunks that hold markers and properties, the
//! properties laid out without padding.

use vstd::prelude::*;
use vstd::utf8::{decode_utf8, valid_utf8};
use crate::binread::{
    take_bytes, take_i16_le, take_i32_le, take_i64_le, take_u16_le, take_u32_le, take_u64_le,
    take_u8, BinaryReader,
};
use crate::error::{end_of_input, TnefReadError, TnefReadErrorView};
use crate::grammar::{
    done, failed, lemma_repeat_end, lemma_repeat_shortens, lemma_repeat_step, next_bytes, next_i16,
    next_i32, next_i64, next_u16, next_u32, next_u64, next_u8, next_units, prepend, repeat,
    shortens, take_units, taken, Decoded,
};
use crate::guid::Guid;
use crate::packed::{
    packed_guid, packed_i16, packed_i32, packed_i64, packed_u32, packed_u64, read_packed_guid,
    read_packed_i16, read_packed_i32, read_packed_i64, read_packed_u32, read_packed_u64,
};
use crate::prop_type::PropType;
use crate::prop_value::{byte_strings, texts, PropValue, PropValueView};
use crate::property::{
    counted, read_guid_element, read_single_count, spec_guid_element, spec_single_count,
};
use crate::text::{
    codepage_known, codepage_text_strict, string_from_utf16, string_from_utf8, utf16_text,
    TextEncoding, MAX_TEXT_LENGTH,
};

verus! {

/// The type of the chunks that hold a message.
pub const MESSAGE_CHUNK: u32 = 2;

/// A marker: a word of the stream that stands for the start or the end of
/// a part of what is transferred.
#[derive(Clone, Copy, Debug, PartialEq, Eq)]
pub enum Marker {
    /// Start of a top folder (`0x4009_0003`).
    StartTopFld,
    /// Start of a subfolder (`0x400A_0003`).
    StartSubFld,
    /// End of a folder (`0x400B_0003`).
    EndFolder,
    /// Start of a message (`0x400C_0003`).
    StartMessage,
    /// End of a message (`0x400D_0003`).
    EndMessage,
    /// Start of a folder-associated message (`0x4010_0003`).
    StartFAIMsg,
    /// Start of an embedded message (`0x4001_0003`).
    StartEmbed,
    /// End of an embedded message (`0x4002_0003`).
    EndEmbed,
    /// Start of a recipient (`0x4003_0003`).
    StartRecip,
    /// End of a recipient (`0x4004_0003`).
    EndToRecip,
    /// Start of an attachment (`0x4000_0003`).
    NewAttach,
    /// End of an attachment (`0x400E_0003`).
    EndAttach,
    /// A change of the synchronization download (`0x4012_0003`).
    IncrSyncChg,
    /// A partial change of the synchronization download (`0x407D_0003`).
    IncrSyncChgPartial,
    /// Deletions of the synchronization download (`0x4013_0003`).
    IncrSyncDel,
    /// End of the synchronization download (`0x4014_0003`).
    IncrSyncEnd,
    /// Read state changes of the synchronization download (`0x402F_0003`).
    IncrSyncRead,
    /// Start of the synchronization state (`0x403A_0003`).
    IncrSyncStateBegin,
    /// End of the synchronization state (`0x403B_0003`).
    IncrSyncStateEnd,
    /// Progress information of the whole download (`0x4074_000B`).
    IncrSyncProgressMode,
    /// Progress information of one message (`0x4075_000B`).
    IncrSyncProgressPerMsg,
    /// A message of the synchronization download (`0x4015_0003`).
    IncrSyncMessage,
    /// Property group information (`0x407B_0102`).
    IncrSyncGroupInfo,
    /// Error information (`0x4018_0003`).
    FXErrorInfo,
}

impl Marker {
    /// The marker that `value` denotes, if it denotes one.
    pub open spec fn spec_try_from_repr(value: u32) -> Option<Self> {
        if value == 0x4009_0003 {
            Some(Self::StartTopFld)
        } else if value == 0x400A_0003 {
            Some(Self::StartSubFld)
        } else if value == 0x400B_0003 {
            Some(Self::EndFolder)
        } else if value == 0x400C_0003 {
            Some(Self::StartMessage)
        } else if value == 0x400D_0003 {
            Some(Self::EndMessage)
        } else if value == 0x4010_0003 {
            Some(Self::StartFAIMsg)
        } else if value == 0x4001_0003 {
            Some(Self::StartEmbed)
        } else if value == 0x4002_0003 {
            Some(Self::EndEmbed)
        } else if value == 0x4003_0003 {
            Some(Self::StartRecip)
        } else if value == 0x4004_0003 {
            Some(Self::EndToRecip)
        } else if value == 0x4000_0003 {
            Some(Self::NewAttach)
        } else if value == 0x400E_0003 {
            Some(Self::EndAttach)
        } else if value == 0x4012_0003 {
            Some(Self::IncrSyncChg)
        } else if value == 0x407D_0003 {
            Some(Self::IncrSyncChgPartial)
        } else if value == 0x4013_0003 {
            Some(Self::IncrSyncDel)
        } else if value == 0x4014_0003 {
            Some(Self::IncrSyncEnd)
        } else if value == 0x402F_0003 {
            Some(Self::IncrSyncRead)
        } else if value == 0x403A_0003 {
            Some(Self::IncrSyncStateBegin)
        } else if value == 0x403B_0003 {
            Some(Self::IncrSyncStateEnd)
        } else if value == 0x4074_000B {
            Some(Self::IncrSyncProgressMode)
        } else if value == 0x4075_000B {
            Some(Self::IncrSyncProgressPerMsg)
        } else if value == 0x4015_0003 {
            Some(Self::IncrSyncMessage)
        } else if value == 0x407B_0102 {
            Some(Self::IncrSyncGroupInfo)
        } else if value == 0x4018_0003 {
            Some(Self::FXErrorInfo)
        } else {
            None
        }
    }

    /// The word that denotes this marker.
    pub open spec fn spec_into_repr(&self) -> u32 {
        match self {
            Self::StartTopFld => 0x4009_0003,
            Self::StartSubFld => 0x400A_0003,
            Self::EndFolder => 0x400B_0003,
            Self::StartMessage => 0x400C_0003,
            Self::EndMessage => 0x400D_0003,
            Self::StartFAIMsg => 0x4010_0003,
            Self::StartEmbed => 0x4001_0003,
            Self::EndEmbed => 0x4002_0003,
            Self::StartRecip => 0x4003_0003,
            Self::EndToRecip => 0x4004_0003,
            Self::NewAttach => 0x4000_0003,
            Self::EndAttach => 0x400E_0003,
            Self::IncrSyncChg => 0x4012_0003,
            Self::IncrSyncChgPartial => 0x407D_0003,
            Self::IncrSyncDel => 0x4013_0003,
            Self::IncrSyncEnd => 0x4014_0003,
            Self::IncrSyncRead => 0x402F_0003,
            Self::IncrSyncStateBegin => 0x403A_0003,
            Self::IncrSyncStateEnd => 0x403B_0003,
            Self::IncrSyncProgressMode => 0x4074_000B,
            Self::IncrSyncProgressPerMsg => 0x4075_000B,
            Self::IncrSyncMessage => 0x4015_0003,
            Self::IncrSyncGroupInfo => 0x407B_0102,
            Self::FXErrorInfo => 0x4018_0003,
        }
    }

    /// The marker that `value` denotes, if it denotes one.
    #[verifier::when_used_as_spec(spec_try_from_repr)]
    pub fn try_from_repr(value: u32) -> (r: Option<Self>)
        ensures
            r == Self::spec_try_from_repr(value),
    {
        if value == 0x4009_0003 {
            Some(Self::StartTopFld)
        } else if value == 0x400A_0003 {
            Some(Self::StartSubFld)
        } else if value == 0x400B_0003 {
            Some(Self::EndFolder)
        } else if value == 0x400C_0003 {
            Some(Self::StartMessage)
        } else if value == 0x400D_0003 {
            Some(Self::EndMessage)
        } else if value == 0x4010_0003 {
            Some(Self::StartFAIMsg)
        } else if value == 0x4001_0003 {
            Some(Self::StartEmbed)
        } else if value == 0x4002_0003 {
            Some(Self::EndEmbed)
        } else if value == 0x4003_0003 {
            Some(Self::StartRecip)
        } else if value == 0x4004_0003 {
            Some(Self::EndToRecip)
        } else if value == 0x4000_0003 {
            Some(Self::NewAttach)
        } else if value == 0x400E_0003 {
            Some(Self::EndAttach)
        } else if value == 0x4012_0003 {
            Some(Self::IncrSyncChg)
        } else if value == 0x407D_0003 {
            Some(Self::IncrSyncChgPartial)
        } else if value == 0x4013_0003 {
            Some(Self::IncrSyncDel)
        } else if value == 0x4014_0003 {
            Some(Self::IncrSyncEnd)
        } else if value == 0x402F_0003 {
            Some(Self::IncrSyncRead)
        } else if value == 0x403A_0003 {
            Some(Self::IncrSyncStateBegin)
        } else if value == 0x403B_0003 {
            Some(Self::IncrSyncStateEnd)
        } else if value == 0x4074_000B {
            Some(Self::IncrSyncProgressMode)
        } else if value == 0x4075_000B {
            Some(Self::IncrSyncProgressPerMsg)
        } else if value == 0x4015_0003 {
            Some(Self::IncrSyncMessage)
        } else if value == 0x407B_0102 {
            Some(Self::IncrSyncGroupInfo)
        } else if value == 0x4018_0003 {
            Some(Self::FXErrorInfo)
        } else {
            None
        }
    }

    /// The word that denotes this marker.
    #[verifier::when_used_as_spec(spec_into_repr)]
    pub fn into_repr(&self) -> (value: u32)
        ensures
            value == self.spec_into_repr(),
    {
        match self {
            Self::StartTopFld => 0x4009_0003,
            Self::StartSubFld => 0x400A_0003,
            Self::EndFolder => 0x400B_0003,
            Self::StartMessage => 0x400C_0003,
            Self::EndMessage => 0x400D_0003,
            Self::StartFAIMsg => 0x4010_0003,
            Self::StartEmbed => 0x4001_0003,
            Self::EndEmbed => 0x4002_0003,
            Self::StartRecip => 0x4003_0003,
            Self::EndToRecip => 0x4004_0003,
            Self::NewAttach => 0x4000_0003,
            Self::EndAttach => 0x400E_0003,
            Self::IncrSyncChg => 0x4012_0003,
            Self::IncrSyncChgPartial => 0x407D_0003,
            Self::IncrSyncDel => 0x4013_0003,
            Self::IncrSyncEnd => 0x4014_0003,
            Self::IncrSyncRead => 0x402F_0003,
            Self::IncrSyncStateBegin => 0x403A_0003,
            Self::IncrSyncStateEnd => 0x403B_0003,
            Self::IncrSyncProgressMode => 0x4074_000B,
            Self::IncrSyncProgressPerMsg => 0x4075_000B,
            Self::IncrSyncMessage => 0x4015_0003,
            Self::IncrSyncGroupInfo => 0x407B_0102,
            Self::FXErrorInfo => 0x4018_0003,
        }
    }

    /// A marker is the one that its word denotes, and a word that denotes
    /// a marker is the word of that marker.
    pub proof fn lemma_round_trip(marker: Marker, value: u32)
        ensures
            Self::spec_try_from_repr(marker.spec_into_repr()) == Some(marker),
            Self::spec_try_from_repr(value) matches Some(m) ==> m.spec_into_repr() == value,
    {
    }
}

/// The name or number of a named property within its property set.
#[derive(Clone, Debug, PartialEq, Eq)]
pub enum PropertyNameInfo {
    DisplayId(u32),
    Name(String),
}

/// The name or number of a named property as contracts speak of it.
pub enum PropertyNameInfoView {
    DisplayId(u32),
    Name(Seq<char>),
}

impl View for PropertyNameInfo {
    type V = PropertyNameInfoView;

    open spec fn view(&self) -> PropertyNameInfoView {
        match self {
            Self::DisplayId(number) => PropertyNameInfoView::DisplayId(*number),
            Self::Name(name) => PropertyNameInfoView::Name(name@),
        }
    }
}

/// What identifies a property: a tag, or a property set and a name or
/// number within it.
#[derive(Clone, Debug, PartialEq, Eq)]
pub enum PropertyId {
    Tagged { tag: u16 },
    Named { property_set: Guid, name_info: PropertyNameInfo },
}

/// The identification of a property as contracts speak of it.
pub enum PropertyIdView {
    Tagged { tag: u16 },
    Named { property_set: Guid, name_info: PropertyNameInfoView },
}

impl View for PropertyId {
    type V = PropertyIdView;

    open spec fn view(&self) -> PropertyIdView {
        match self {
            Self::Tagged { tag } => PropertyIdView::Tagged { tag: *tag },
            Self::Named { property_set, name_info } => PropertyIdView::Named {
                property_set: *property_set,
                name_info: name_info@,
            },
        }
    }
}

/// An element of a message: a marker or a property.
#[derive(Clone, Debug, PartialEq)]
pub enum Element {
    Marker(Marker),
    Property { prop_type: PropType, id: PropertyId, value: PropValue },
}

/// An element as contracts speak of it.
pub enum ElementView {
    Marker(Marker),
    Property { prop_type: PropType, id: PropertyIdView, value: PropValueView },
}

impl View for Element {
    type V = ElementView;

    open spec fn view(&self) -> ElementView {
        match self {
            Self::Marker(marker) => ElementView::Marker(*marker),
            Self::Property { prop_type, id, value } => ElementView::Property {
                prop_type: *prop_type,
                id: id@,
                value: value@,
            },
        }
    }
}

/// The views of the elements of a list.
pub open spec fn element_views(elements: Seq<Element>) -> Seq<ElementView> {
    Seq::new(elements.len(), |i: int| elements[i]@)
}

/// A chunk of the stream: its type and its bytes.
#[derive(Clone, Debug, PartialEq, Eq)]
pub struct Chunk {
    pub chunk_type: u32,
    pub data: Vec<u8>,
}

/// A chunk as contracts speak of it.
pub struct ChunkView {
    pub chunk_type: u32,
    pub data: Seq<u8>,
}

impl View for Chunk {
    type V = ChunkView;

    open spec fn view(&self) -> ChunkView {
        ChunkView { chunk_type: self.chunk_type, data: self.data@ }
    }
}

/// The views of the chunks of a list.
pub open spec fn chunk_views(chunks: Seq<Chunk>) -> Seq<ChunkView> {
    Seq::new(chunks.len(), |i: int| chunks[i]@)
}

/// A chunk: a 32-bit type, a 32-bit length, and that many bytes.
pub open spec fn spec_chunk(s: Seq<u8>) -> Decoded<ChunkView> {
    match take_u32_le(s) {
        None => Err(end_of_input()),
        Some((chunk_type, s1)) => match take_u32_le(s1) {
            None => Err(end_of_input()),
            Some((length, s2)) => match take_bytes(s2, length as nat) {
                None => Err(end_of_input()),
                Some((data, rest)) => Ok((ChunkView { chunk_type, data }, rest)),
            },
        },
    }
}

/// The chunks that fill `s` to its end.
pub open spec fn spec_chunks(s: Seq<u8>) -> Result<Seq<ChunkView>, TnefReadErrorView>
    decreases s.len(),
{
    if s.len() == 0 {
        Ok(Seq::empty())
    } else {
        match spec_chunk(s) {
            Err(e) => Err(e),
            Ok((chunk, rest)) => match spec_chunks(rest) {
                Err(e) => Err(e),
                Ok(chunks) => Ok(seq![chunk] + chunks),
            },
        }
    }
}

/// The code units of a name: those that precede the first unit that is
/// zero, which ends the name.
pub open spec fn spec_name_units(s: Seq<u8>) -> Decoded<Seq<u16>>
    decreases s.len(),
{
    match take_u16_le(s) {
        None => Err(end_of_input()),
        Some((unit, rest)) => if unit == 0 {
            Ok((Seq::empty(), rest))
        } else {
            prepend(seq![unit], spec_name_units(rest))
        },
    }
}

/// What identifies the property whose word holds `id` in its upper half:
/// below `0x8000` the tag itself; from there on a property set, a byte
/// that tells a number (0) from a name (1), and the number or the name.
pub open spec fn spec_transfer_id(id: u16, s: Seq<u8>) -> Decoded<PropertyIdView> {
    if id < 0x8000 {
        Ok((PropertyIdView::Tagged { tag: id }, s))
    } else {
        match spec_guid_element(s) {
            Err(e) => Err(e),
            Ok((property_set, s1)) => match take_u8(s1) {
                None => Err(end_of_input()),
                Some((kind, s2)) => if kind == 0 {
                    match take_u32_le(s2) {
                        None => Err(end_of_input()),
                        Some((number, s3)) => Ok(
                            (
                                PropertyIdView::Named {
                                    property_set,
                                    name_info: PropertyNameInfoView::DisplayId(number),
                                },
                                s3,
                            ),
                        ),
                    }
                } else if kind == 1 {
                    match spec_name_units(s2) {
                        Err(e) => Err(e),
                        Ok((units, s3)) => match utf16_text(units) {
                            None => Err(TnefReadErrorView::InvalidStringId { obtained: units }),
                            Some(name) => Ok(
                                (
                                    PropertyIdView::Named {
                                        property_set,
                                        name_info: PropertyNameInfoView::Name(name),
                                    },
                                    s3,
                                ),
                            ),
                        },
                    }
                } else {
                    Err(TnefReadErrorView::InvalidIdType { obtained: kind as u32 })
                },
            },
        }
    }
}

/// A truth value in two bytes: the number 0 or 1.
pub open spec fn spec_boolean_word(s: Seq<u8>) -> Decoded<bool> {
    match take_u16_le(s) {
        None => Err(end_of_input()),
        Some((word, rest)) => if word == 0 || word == 1 {
            Ok((word == 1, rest))
        } else {
            Err(TnefReadErrorView::InvalidBooleanWord { obtained: word })
        },
    }
}

/// A byte string: a 32-bit length and that many bytes.
pub open spec fn spec_raw_bytes(s: Seq<u8>) -> Decoded<Seq<u8>> {
    match take_u32_le(s) {
        None => Err(end_of_input()),
        Some((length, rest)) => taken(take_bytes(rest, length as nat)),
    }
}

/// A text in UTF-8, laid out as a byte string.
pub open spec fn spec_utf8_element(s: Seq<u8>) -> Decoded<Seq<char>> {
    match spec_raw_bytes(s) {
        Err(e) => Err(e),
        Ok((bytes, rest)) => if valid_utf8(bytes) {
            Ok((decode_utf8(bytes), rest))
        } else {
            Err(TnefReadErrorView::InvalidString8 { obtained: bytes })
        },
    }
}

/// A text in UTF-16: a 32-bit length in bytes, which must be even, and
/// that many bytes of little-endian code units, which must be well formed.
pub open spec fn spec_utf16_element(s: Seq<u8>) -> Decoded<Seq<char>> {
    match take_u32_le(s) {
        None => Err(end_of_input()),
        Some((length, rest)) => if length % 2 != 0 {
            Err(TnefReadErrorView::OddStringLength { byte_length: length as usize })
        } else {
            match take_units(rest, (length / 2) as nat) {
                None => Err(end_of_input()),
                Some((units, after)) => match utf16_text(units) {
                    None => Err(TnefReadErrorView::InvalidString { obtained: units }),
                    Some(text) => Ok((text, after)),
                },
            }
        },
    }
}

/// The text of a property whose type code names a code page: the code
/// must have its highest bit set, the other bits must be the identifier of
/// a code page that has a decoder, and the decoder must come to the end of
/// the byte string that follows.
pub open spec fn spec_codepage_string(type_code: u16, s: Seq<u8>) -> Decoded<Seq<char>> {
    if type_code < 0x8000 {
        Err(TnefReadErrorView::InvalidPropertyType { property_type: type_code })
    } else if !codepage_known((type_code - 0x8000) as u16) {
        Err(TnefReadErrorView::UnknownCodepage { code_page: (type_code - 0x8000) as u16 })
    } else {
        match spec_raw_bytes(s) {
            Err(e) => Err(e),
            Ok((bytes, rest)) => match codepage_text_strict((type_code - 0x8000) as u16, bytes) {
                None => Err(TnefReadErrorView::InvalidString8 { obtained: bytes }),
                Some(text) => Ok((text, rest)),
            },
        }
    }
}

/// The decoder of the elements of an array of byte strings, as a value.
pub open spec fn raw_bytes_decoder() -> spec_fn(Seq<u8>) -> Decoded<Seq<u8>> {
    |s: Seq<u8>| spec_raw_bytes(s)
}

/// The decoder of the elements of an array of UTF-8 texts, as a value.
pub open spec fn utf8_decoder() -> spec_fn(Seq<u8>) -> Decoded<Seq<char>> {
    |s: Seq<u8>| spec_utf8_element(s)
}

/// The decoder of the elements of an array of UTF-16 texts, as a value.
pub open spec fn utf16_decoder() -> spec_fn(Seq<u8>) -> Decoded<Seq<char>> {
    |s: Seq<u8>| spec_utf16_element(s)
}

/// The value of the type `prop_type` at the start of `s`. Only the code of
/// the type counts. Nothing pads a value. A byte string is preceded by a
/// count of 1 where it is an object, and by none where it is binary. A
/// type without a name of its own holds a text in the code page that the
/// code names.
pub open spec fn spec_transfer_value(prop_type: PropType, s: Seq<u8>) -> Decoded<PropValueView> {
    match PropType::spec_from_base_type(prop_type.spec_to_base_type()) {
        PropType::Unspecified => Ok((PropValueView::Unspecified, s)),
        PropType::Null => Ok((PropValueView::Null, s)),
        PropType::Integer16 => match taken(take_i16_le(s)) {
            Err(e) => Err(e),
            Ok((value, rest)) => Ok((PropValueView::Integer16(value), rest)),
        },
        PropType::Integer32 => match taken(take_i32_le(s)) {
            Err(e) => Err(e),
            Ok((value, rest)) => Ok((PropValueView::Integer32(value), rest)),
        },
        PropType::Floating32 => match taken(take_u32_le(s)) {
            Err(e) => Err(e),
            Ok((value, rest)) => Ok((PropValueView::Floating32(value), rest)),
        },
        PropType::Floating64 => match taken(take_u64_le(s)) {
            Err(e) => Err(e),
            Ok((value, rest)) => Ok((PropValueView::Floating64(value), rest)),
        },
        PropType::Currency => match taken(take_i64_le(s)) {
            Err(e) => Err(e),
            Ok((value, rest)) => Ok((PropValueView::Currency(value), rest)),
        },
        PropType::FloatingTime => match taken(take_u64_le(s)) {
            Err(e) => Err(e),
            Ok((value, rest)) => Ok((PropValueView::FloatingTime(value), rest)),
        },
        PropType::ErrorCode => match taken(take_u32_le(s)) {
            Err(e) => Err(e),
            Ok((value, rest)) => Ok((PropValueView::ErrorCode(value), rest)),
        },
        PropType::Boolean => match spec_boolean_word(s) {
            Err(e) => Err(e),
            Ok((value, rest)) => Ok((PropValueView::Boolean(value), rest)),
        },
        PropType::Object => match spec_single_count(PropType::Object, s) {
            Err(e) => Err(e),
            Ok((_, rest)) => match spec_raw_bytes(rest) {
                Err(e) => Err(e),
                Ok((value, after)) => Ok((PropValueView::Object(value), after)),
            },
        },
        PropType::Integer64 => match taken(take_i64_le(s)) {
            Err(e) => Err(e),
            Ok((value, rest)) => Ok((PropValueView::Integer64(value), rest)),
        },
        PropType::String8 => match spec_single_count(PropType::String8, s) {
            Err(e) => Err(e),
            Ok((_, rest)) => match spec_utf8_element(rest) {
                Err(e) => Err(e),
                Ok((value, after)) => Ok((PropValueView::String8(value), after)),
            },
        },
        PropType::String => match spec_single_count(PropType::String, s) {
            Err(e) => Err(e),
            Ok((_, rest)) => match spec_utf16_element(rest) {
                Err(e) => Err(e),
                Ok((value, after)) => Ok((PropValueView::String(value), after)),
            },
        },
        PropType::Time => match taken(take_i64_le(s)) {
            Err(e) => Err(e),
            Ok((value, rest)) => Ok((PropValueView::Time(value), rest)),
        },
        PropType::Guid => match spec_guid_element(s) {
            Err(e) => Err(e),
            Ok((value, rest)) => Ok((PropValueView::Guid(value), rest)),
        },
        PropType::Binary => match spec_raw_bytes(s) {
            Err(e) => Err(e),
            Ok((value, rest)) => Ok((PropValueView::Binary(value), rest)),
        },
        PropType::MultipleInteger16 => match counted(packed_i16(), s) {
            Err(e) => Err(e),
            Ok((value, rest)) => Ok((PropValueView::MultipleInteger16(value), rest)),
        },
        PropType::MultipleInteger32 => match counted(packed_i32(), s) {
            Err(e) => Err(e),
            Ok((value, rest)) => Ok((PropValueView::MultipleInteger32(value), rest)),
        },
        PropType::MultipleFloating32 => match counted(packed_u32(), s) {
            Err(e) => Err(e),
            Ok((value, rest)) => Ok((PropValueView::MultipleFloating32(value), rest)),
        },
        PropType::MultipleFloating64 => match counted(packed_u64(), s) {
            Err(e) => Err(e),
            Ok((value, rest)) => Ok((PropValueView::MultipleFloating64(value), rest)),
        },
        PropType::MultipleCurrency => match counted(packed_i64(), s) {
            Err(e) => Err(e),
            Ok((value, rest)) => Ok((PropValueView::MultipleCurrency(value), rest)),
        },
        PropType::MultipleFloatingTime => match counted(packed_u64(), s) {
            Err(e) => Err(e),
            Ok((value, rest)) => Ok((PropValueView::MultipleFloatingTime(value), rest)),
        },
        PropType::MultipleInteger64 => match counted(packed_i64(), s) {
            Err(e) => Err(e),
            Ok((value, rest)) => Ok((PropValueView::MultipleInteger64(value), rest)),
        },
        PropType::MultipleString8 => match counted(utf8_decoder(), s) {
            Err(e) => Err(e),
            Ok((value, rest)) => Ok((PropValueView::MultipleString8(value), rest)),
        },
        PropType::MultipleString => match counted(utf16_decoder(), s) {
            Err(e) => Err(e),
            Ok((value, rest)) => Ok((PropValueView::MultipleString(value), rest)),
        },
        PropType::MultipleTime => match counted(packed_i64(), s) {
            Err(e) => Err(e),
            Ok((value, rest)) => Ok((PropValueView::MultipleTime(value), rest)),
        },
        PropType::MultipleGuid => match counted(packed_guid(), s) {
            Err(e) => Err(e),
            Ok((value, rest)) => Ok((PropValueView::MultipleGuid(value), rest)),
        },
        PropType::MultipleBinary => match counted(raw_bytes_decoder(), s) {
            Err(e) => Err(e),
            Ok((value, rest)) => Ok((PropValueView::MultipleBinary(value), rest)),
        },
        PropType::Other(code) => match spec_codepage_string(code, s) {
            Err(e) => Err(e),
            Ok((text, rest)) => Ok((PropValueView::String(text), rest)),
        },
    }
}

/// The element at the start of `s`: a 32-bit word that is a marker, or
/// that holds the type code of a property in its lower half and its
/// identifier in its upper half, followed by what else identifies the
/// property and by its value.
#[verifier::opaque]
pub open spec fn spec_element(s: Seq<u8>) -> Decoded<ElementView> {
    match take_u32_le(s) {
        None => Err(end_of_input()),
        Some((word, s1)) => match Marker::spec_try_from_repr(word) {
            Some(marker) => Ok((ElementView::Marker(marker), s1)),
            None => match spec_transfer_id((word / 0x1_0000) as u16, s1) {
                Err(e) => Err(e),
                Ok((id, s2)) => match spec_transfer_value(
                    PropType::spec_from_base_type((word % 0x1_0000) as u16),
                    s2,
                ) {
                    Err(e) => Err(e),
                    Ok((value, s3)) => Ok(
                        (
                            ElementView::Property {
                                prop_type: PropType::spec_from_base_type((word % 0x1_0000) as u16),
                                id,
                                value,
                            },
                            s3,
                        ),
                    ),
                },
            },
        },
    }
}

/// The elements that fill `s` to its end.
pub open spec fn spec_elements(s: Seq<u8>) -> Result<Seq<ElementView>, TnefReadErrorView>
    decreases s.len(),
    via spec_elements_terminates
{
    if s.len() == 0 {
        Ok(Seq::empty())
    } else {
        match spec_element(s) {
            Err(e) => Err(e),
            Ok((element, rest)) => match spec_elements(rest) {
                Err(e) => Err(e),
                Ok(elements) => Ok(seq![element] + elements),
            },
        }
    }
}

/// Every element shortens the input, so the elements come to an end.
#[via_fn]
proof fn spec_elements_terminates(s: Seq<u8>) {
    lemma_element_shortens(s);
}

/// The code units of a name leave less input than they find.
pub proof fn lemma_name_units_shorten(s: Seq<u8>)
    ensures
        spec_name_units(s) matches Ok((_, rest)) ==> rest.len() < s.len(),
    decreases s.len(),
{
    match take_u16_le(s) {
        None => {},
        Some((unit, rest)) => {
            if unit != 0 {
                lemma_name_units_shorten(rest);
            }
        },
    }
}

/// A value leaves no more input than it finds.
pub proof fn lemma_transfer_value_shortens(prop_type: PropType, s: Seq<u8>)
    ensures
        shortens(spec_transfer_value(prop_type, s), s),
{
    assert forall|x: Seq<u8>| shortens(#[trigger] packed_i16()(x), x) by {}
    assert forall|x: Seq<u8>| shortens(#[trigger] packed_i32()(x), x) by {}
    assert forall|x: Seq<u8>| shortens(#[trigger] packed_u32()(x), x) by {}
    assert forall|x: Seq<u8>| shortens(#[trigger] packed_i64()(x), x) by {}
    assert forall|x: Seq<u8>| shortens(#[trigger] packed_u64()(x), x) by {}
    assert forall|x: Seq<u8>| shortens(#[trigger] packed_guid()(x), x) by {}
    assert forall|x: Seq<u8>| shortens(#[trigger] raw_bytes_decoder()(x), x) by {}
    assert forall|x: Seq<u8>| shortens(#[trigger] utf8_decoder()(x), x) by {}
    assert forall|x: Seq<u8>| shortens(#[trigger] utf16_decoder()(x), x) by {}
    match take_u32_le(s) {
        None => {},
        Some((count, rest)) => {
            lemma_repeat_shortens(packed_i16(), count as nat, rest);
            lemma_repeat_shortens(packed_i32(), count as nat, rest);
            lemma_repeat_shortens(packed_u32(), count as nat, rest);
            lemma_repeat_shortens(packed_i64(), count as nat, rest);
            lemma_repeat_shortens(packed_u64(), count as nat, rest);
            lemma_repeat_shortens(packed_guid(), count as nat, rest);
            lemma_repeat_shortens(raw_bytes_decoder(), count as nat, rest);
            lemma_repeat_shortens(utf8_decoder(), count as nat, rest);
            lemma_repeat_shortens(utf16_decoder(), count as nat, rest);
        },
    }
}

/// An element leaves less input than it finds.
pub proof fn lemma_element_shortens(s: Seq<u8>)
    ensures
        spec_element(s) matches Ok((_, rest)) ==> rest.len() < s.len(),
{
    reveal(spec_element);
    match take_u32_le(s) {
        None => {},
        Some((word, s1)) => {
            match spec_transfer_id((word / 0x1_0000) as u16, s1) {
                Err(e) => {},
                Ok((id, s2)) => {
                    match spec_guid_element(s1) {
                        Err(e) => {},
                        Ok((_, after)) => {
                            lemma_name_units_shorten(after.skip(1));
                        },
                    }
                    lemma_transfer_value_shortens(
                        PropType::spec_from_base_type((word % 0x1_0000) as u16),
                        s2,
                    );
                },
            }
        },
    }
}

/// Reads the chunk at the reader's position.
pub fn read_chunk(reader: &mut BinaryReader<'_>) -> (r: Result<Chunk, TnefReadError>)
    ensures
        match r {
            Ok(chunk) => spec_chunk(old(reader)@) == done(chunk@, final(reader)@),
            Err(e) => spec_chunk(old(reader)@) == failed::<ChunkView>(e@),
        },
{
    let chunk_type = next_u32(reader)?;
    let length = next_u32(reader)?;
    let data = next_bytes(reader, length as usize)?;
    Ok(Chunk { chunk_type, data })
}

/// Reads the chunks that fill `data` to its end.
pub fn read_chunks(data: &[u8]) -> (r: Result<Vec<Chunk>, TnefReadError>)
    ensures
        match r {
            Ok(chunks) => spec_chunks(data@) == Ok::<Seq<ChunkView>, TnefReadErrorView>(
                chunk_views(chunks@),
            ),
            Err(e) => spec_chunks(data@) == Err::<Seq<ChunkView>, TnefReadErrorView>(e@),
        },
{
    let mut reader = BinaryReader::new(data);
    let mut chunks: Vec<Chunk> = Vec::new();
    proof {
        match spec_chunks(data@) {
            Ok(all) => {
                assert(chunk_views(chunks@) + all =~= all);
            },
            Err(_) => {},
        }
    }
    while reader.remaining() > 0
        invariant
            spec_chunks(data@) == match spec_chunks(reader@) {
                Err(e) => Err(e),
                Ok(rest) => Ok(chunk_views(chunks@) + rest),
            },
        decreases reader@.len(),
    {
        let ghost before = chunk_views(chunks@);
        let chunk = read_chunk(&mut reader)?;
        chunks.push(chunk);
        proof {
            assert(chunk_views(chunks@) =~= before.push(chunk@));
            match spec_chunks(reader@) {
                Ok(rest) => {
                    assert(before + (seq![chunk@] + rest) =~= chunk_views(chunks@) + rest);
                },
                Err(_) => {},
            }
        }
    }
    proof {
        assert(chunk_views(chunks@) + Seq::<ChunkView>::empty() =~= chunk_views(chunks@));
    }
    Ok(chunks)
}

/// Reads the code units of a name, up to and with the unit that ends it.
fn read_name_units(reader: &mut BinaryReader<'_>) -> (r: Result<Vec<u16>, TnefReadError>)
    ensures
        match r {
            Ok(units) => spec_name_units(old(reader)@) == done(units@, final(reader)@),
            Err(e) => spec_name_units(old(reader)@) == failed::<Seq<u16>>(e@),
        },
{
    let mut units: Vec<u16> = Vec::new();
    proof {
        match spec_name_units(reader@) {
            Ok((all, _)) => {
                assert(units@ + all =~= all);
            },
            Err(_) => {},
        }
    }
    loop
        invariant
            spec_name_units(old(reader)@) == prepend(units@, spec_name_units(reader@)),
        decreases reader@.len(),
    {
        let ghost before = units@;
        let unit = next_u16(reader)?;
        if unit == 0 {
            proof {
                assert(units@ + Seq::<u16>::empty() =~= units@);
            }
            return Ok(units);
        }
        units.push(unit);
        proof {
            match spec_name_units(reader@) {
                Ok((more, _)) => {
                    assert(before + (seq![unit] + more) =~= units@ + more);
                },
                Err(_) => {},
            }
        }
    }
}

/// Reads what identifies the property whose word holds `id` in its upper
/// half.
pub fn read_transfer_id(reader: &mut BinaryReader<'_>, id: u16) -> (r: Result<
    PropertyId,
    TnefReadError,
>)
    ensures
        match r {
            Ok(read) => spec_transfer_id(id, old(reader)@) == done(read@, final(reader)@),
            Err(e) => spec_transfer_id(id, old(reader)@) == failed::<PropertyIdView>(e@),
        },
{
    if id < 0x8000 {
        return Ok(PropertyId::Tagged { tag: id });
    }
    let property_set = read_guid_element(reader)?;
    let kind = next_u8(reader)?;
    if kind == 0 {
        let number = next_u32(reader)?;
        Ok(PropertyId::Named { property_set, name_info: PropertyNameInfo::DisplayId(number) })
    } else if kind == 1 {
        let units = read_name_units(reader)?;
        match string_from_utf16(&units) {
            Some(name) => Ok(
                PropertyId::Named { property_set, name_info: PropertyNameInfo::Name(name) },
            ),
            None => Err(TnefReadError::InvalidStringId { obtained: units }),
        }
    } else {
        Err(TnefReadError::InvalidIdType { obtained: kind as u32 })
    }
}

/// Reads a truth value in two bytes.
fn read_boolean_word(reader: &mut BinaryReader<'_>) -> (r: Result<bool, TnefReadError>)
    ensures
        match r {
            Ok(v) => spec_boolean_word(old(reader)@) == done(v, final(reader)@),
            Err(e) => spec_boolean_word(old(reader)@) == failed::<bool>(e@),
        },
{
    let word = next_u16(reader)?;
    if word == 0 {
        Ok(false)
    } else if word == 1 {
        Ok(true)
    } else {
        Err(TnefReadError::InvalidBooleanWord { obtained: word })
    }
}

/// Reads a byte string: its length and its bytes.
fn read_raw_bytes(reader: &mut BinaryReader<'_>) -> (r: Result<Vec<u8>, TnefReadError>)
    ensures
        match r {
            Ok(v) => spec_raw_bytes(old(reader)@) == done(v@, final(reader)@),
            Err(e) => spec_raw_bytes(old(reader)@) == failed::<Seq<u8>>(e@),
        },
{
    let length = next_u32(reader)?;
    next_bytes(reader, length as usize)
}

/// Reads a text in UTF-8.
fn read_utf8_element(reader: &mut BinaryReader<'_>) -> (r: Result<String, TnefReadError>)
    ensures
        match r {
            Ok(v) => spec_utf8_element(old(reader)@) == done(v@, final(reader)@),
            Err(e) => spec_utf8_element(old(reader)@) == failed::<Seq<char>>(e@),
        },
{
    let bytes = read_raw_bytes(reader)?;
    match string_from_utf8(bytes.as_slice()) {
        Some(text) => Ok(text),
        None => Err(TnefReadError::InvalidString8 { obtained: bytes }),
    }
}

/// Reads a text in UTF-16: its length and its code units.
fn read_utf16_element(reader: &mut BinaryReader<'_>) -> (r: Result<String, TnefReadError>)
    ensures
        match r {
            Ok(v) => spec_utf16_element(old(reader)@) == done(v@, final(reader)@),
            Err(e) => spec_utf16_element(old(reader)@) == failed::<Seq<char>>(e@),
        },
{
    let length = next_u32(reader)?;
    if length % 2 != 0 {
        return Err(TnefReadError::OddStringLength { byte_length: length as usize });
    }
    let units = next_units(reader, (length / 2) as usize)?;
    match string_from_utf16(&units) {
        Some(text) => Ok(text),
        None => Err(TnefReadError::InvalidString { obtained: units }),
    }
}

/// Reads the text of a property whose type code names a code page.
fn read_codepage_string(reader: &mut BinaryReader<'_>, type_code: u16) -> (r: Result<
    String,
    TnefReadError,
>)
    requires
        old(reader)@.len() <= MAX_TEXT_LENGTH,
    ensures
        match r {
            Ok(v) => spec_codepage_string(type_code, old(reader)@) == done(v@, final(reader)@),
            Err(e) => spec_codepage_string(type_code, old(reader)@) == failed::<Seq<char>>(e@),
        },
{
    if type_code < 0x8000 {
        return Err(TnefReadError::InvalidPropertyType { property_type: type_code });
    }
    let code_page = type_code - 0x8000;
    let encoding = match TextEncoding::from_codepage(code_page) {
        Some(encoding) => encoding,
        None => return Err(TnefReadError::UnknownCodepage { code_page }),
    };
    let bytes = read_raw_bytes(reader)?;
    match encoding.decode_strictly(bytes.as_slice()) {
        Some(text) => Ok(text),
        None => Err(TnefReadError::InvalidString8 { obtained: bytes }),
    }
}

/// Reads an array of byte strings.
fn read_raw_bytes_array(reader: &mut BinaryReader<'_>) -> (r: Result<Vec<Vec<u8>>, TnefReadError>)
    ensures
        match r {
            Ok(v) => counted(raw_bytes_decoder(), old(reader)@) == done(
                byte_strings(v@),
                final(reader)@,
            ),
            Err(e) => counted(raw_bytes_decoder(), old(reader)@) == failed::<Seq<Seq<u8>>>(e@),
        },
{
    let count = next_u32(reader)?;
    let ghost body = reader@;
    let mut values: Vec<Vec<u8>> = Vec::new();
    let mut i: u32 = 0;
    proof {
        match repeat(raw_bytes_decoder(), count as nat, body) {
            Ok((all, _)) => {
                assert(byte_strings(values@) + all =~= all);
            },
            Err(_) => {},
        }
    }
    while i < count
        invariant
            i <= count,
            counted(raw_bytes_decoder(), old(reader)@) == repeat(
                raw_bytes_decoder(),
                count as nat,
                body,
            ),
            repeat(raw_bytes_decoder(), count as nat, body) == prepend(
                byte_strings(values@),
                repeat(raw_bytes_decoder(), (count - i) as nat, reader@),
            ),
        decreases count - i,
    {
        proof {
            lemma_repeat_step(raw_bytes_decoder(), (count - i) as nat, reader@, byte_strings(values@));
        }
        let ghost before = byte_strings(values@);
        let value = read_raw_bytes(reader)?;
        values.push(value);
        i = i + 1;
        assert(byte_strings(values@) =~= before.push(value@));
    }
    proof {
        lemma_repeat_end(raw_bytes_decoder(), reader@, byte_strings(values@));
    }
    Ok(values)
}

/// Reads an array of UTF-8 texts.
fn read_utf8_array(reader: &mut BinaryReader<'_>) -> (r: Result<Vec<String>, TnefReadError>)
    ensures
        match r {
            Ok(v) => counted(utf8_decoder(), old(reader)@) == done(texts(v@), final(reader)@),
            Err(e) => counted(utf8_decoder(), old(reader)@) == failed::<Seq<Seq<char>>>(e@),
        },
{
    let count = next_u32(reader)?;
    let ghost body = reader@;
    let mut values: Vec<String> = Vec::new();
    let mut i: u32 = 0;
    proof {
        match repeat(utf8_decoder(), count as nat, body) {
            Ok((all, _)) => {
                assert(texts(values@) + all =~= all);
            },
            Err(_) => {},
        }
    }
    while i < count
        invariant
            i <= count,
            counted(utf8_decoder(), old(reader)@) == repeat(utf8_decoder(), count as nat, body),
            repeat(utf8_decoder(), count as nat, body) == prepend(
                texts(values@),
                repeat(utf8_decoder(), (count - i) as nat, reader@),
            ),
        decreases count - i,
    {
        proof {
            lemma_repeat_step(utf8_decoder(), (count - i) as nat, reader@, texts(values@));
        }
        let ghost before = texts(values@);
        let value = read_utf8_element(reader)?;
        values.push(value);
        i = i + 1;
        assert(texts(values@) =~= before.push(value@));
    }
    proof {
        lemma_repeat_end(utf8_decoder(), reader@, texts(values@));
    }
    Ok(values)
}

/// Reads an array of UTF-16 texts.
fn read_utf16_array(reader: &mut BinaryReader<'_>) -> (r: Result<Vec<String>, TnefReadError>)
    ensures
        match r {
            Ok(v) => counted(utf16_decoder(), old(reader)@) == done(texts(v@), final(reader)@),
            Err(e) => counted(utf16_decoder(), old(reader)@) == failed::<Seq<Seq<char>>>(e@),
        },
{
    let count = next_u32(reader)?;
    let ghost body = reader@;
    let mut values: Vec<String> = Vec::new();
    let mut i: u32 = 0;
    proof {
        match repeat(utf16_decoder(), count as nat, body) {
            Ok((all, _)) => {
                assert(texts(values@) + all =~= all);
            },
            Err(_) => {},
        }
    }
    while i < count
        invariant
            i <= count,
            counted(utf16_decoder(), old(reader)@) == repeat(utf16_decoder(), count as nat, body),
            repeat(utf16_decoder(), count as nat, body) == prepend(
                texts(values@),
                repeat(utf16_decoder(), (count - i) as nat, reader@),
            ),
        decreases count - i,
    {
        proof {
            lemma_repeat_step(utf16_decoder(), (count - i) as nat, reader@, texts(values@));
        }
        let ghost before = texts(values@);
        let value = read_utf16_element(reader)?;
        values.push(value);
        i = i + 1;
        assert(texts(values@) =~= before.push(value@));
    }
    proof {
        lemma_repeat_end(utf16_decoder(), reader@, texts(values@));
    }
    Ok(values)
}

/// Reads a count and that many elements that follow one another.
fn read_counted_i16(reader: &mut BinaryReader<'_>) -> (r: Result<Vec<i16>, TnefReadError>)
    ensures
        match r {
            Ok(v) => counted(packed_i16(), old(reader)@) == done(v@, final(reader)@),
            Err(e) => counted(packed_i16(), old(reader)@) == failed::<Seq<i16>>(e@),
        },
{
    let count = next_u32(reader)?;
    read_packed_i16(reader, count as usize)
}

/// Reads a count and that many elements that follow one another.
fn read_counted_i32(reader: &mut BinaryReader<'_>) -> (r: Result<Vec<i32>, TnefReadError>)
    ensures
        match r {
            Ok(v) => counted(packed_i32(), old(reader)@) == done(v@, final(reader)@),
            Err(e) => counted(packed_i32(), old(reader)@) == failed::<Seq<i32>>(e@),
        },
{
    let count = next_u32(reader)?;
    read_packed_i32(reader, count as usize)
}

/// Reads a count and that many elements that follow one another.
fn read_counted_u32(reader: &mut BinaryReader<'_>) -> (r: Result<Vec<u32>, TnefReadError>)
    ensures
        match r {
            Ok(v) => counted(packed_u32(), old(reader)@) == done(v@, final(reader)@),
            Err(e) => counted(packed_u32(), old(reader)@) == failed::<Seq<u32>>(e@),
        },
{
    let count = next_u32(reader)?;
    read_packed_u32(reader, count as usize)
}

/// Reads a count and that many elements that follow one another.
fn read_counted_i64(reader: &mut BinaryReader<'_>) -> (r: Result<Vec<i64>, TnefReadError>)
    ensures
        match r {
            Ok(v) => counted(packed_i64(), old(reader)@) == done(v@, final(reader)@),
            Err(e) => counted(packed_i64(), old(reader)@) == failed::<Seq<i64>>(e@),
        },
{
    let count = next_u32(reader)?;
    read_packed_i64(reader, count as usize)
}

/// Reads a count and that many elements that follow one another.
fn read_counted_u64(reader: &mut BinaryReader<'_>) -> (r: Result<Vec<u64>, TnefReadError>)
    ensures
        match r {
            Ok(v) => counted(packed_u64(), old(reader)@) == done(v@, final(reader)@),
            Err(e) => counted(packed_u64(), old(reader)@) == failed::<Seq<u64>>(e@),
        },
{
    let count = next_u32(reader)?;
    read_packed_u64(reader, count as usize)
}

/// Reads a count and that many elements that follow one another.
fn read_counted_guid(reader: &mut BinaryReader<'_>) -> (r: Result<Vec<Guid>, TnefReadError>)
    ensures
        match r {
            Ok(v) => counted(packed_guid(), old(reader)@) == done(v@, final(reader)@),
            Err(e) => counted(packed_guid(), old(reader)@) == failed::<Seq<Guid>>(e@),
        },
{
    let count = next_u32(reader)?;
    read_packed_guid(reader, count as usize)
}

/// Decodes the value of the type `prop_type` at the reader's position.
pub fn decode_transfer_value(prop_type: PropType, reader: &mut BinaryReader<'_>) -> (r: Result<
    PropValue,
    TnefReadError,
>)
    requires
        old(reader)@.len() <= MAX_TEXT_LENGTH,
    ensures
        match r {
            Ok(value) => spec_transfer_value(prop_type, old(reader)@) == done(value@, final(reader)@),
            Err(e) => spec_transfer_value(prop_type, old(reader)@) == failed::<PropValueView>(e@),
        },
{
    match PropType::from_base_type(prop_type.to_base_type()) {
        PropType::Unspecified => Ok(PropValue::Unspecified),
        PropType::Null => Ok(PropValue::Null),
        PropType::Integer16 => Ok(PropValue::Integer16(next_i16(reader)?)),
        PropType::Integer32 => Ok(PropValue::Integer32(next_i32(reader)?)),
        PropType::Floating32 => Ok(PropValue::Floating32(next_u32(reader)?)),
        PropType::Floating64 => Ok(PropValue::Floating64(next_u64(reader)?)),
        PropType::Currency => Ok(PropValue::Currency(next_i64(reader)?)),
        PropType::FloatingTime => Ok(PropValue::FloatingTime(next_u64(reader)?)),
        PropType::ErrorCode => Ok(PropValue::ErrorCode(next_u32(reader)?)),
        PropType::Boolean => Ok(PropValue::Boolean(read_boolean_word(reader)?)),
        PropType::Object => {
            read_single_count(reader, PropType::Object)?;
            Ok(PropValue::Object(read_raw_bytes(reader)?))
        },
        PropType::Integer64 => Ok(PropValue::Integer64(next_i64(reader)?)),
        PropType::String8 => {
            read_single_count(reader, PropType::String8)?;
            Ok(PropValue::String8(read_utf8_element(reader)?))
        },
        PropType::String => {
            read_single_count(reader, PropType::String)?;
            Ok(PropValue::String(read_utf16_element(reader)?))
        },
        PropType::Time => Ok(PropValue::Time(next_i64(reader)?)),
        PropType::Guid => Ok(PropValue::Guid(read_guid_element(reader)?)),
        PropType::Binary => Ok(PropValue::Binary(read_raw_bytes(reader)?)),
        PropType::MultipleInteger16 => Ok(PropValue::MultipleInteger16(read_counted_i16(reader)?)),
        PropType::MultipleInteger32 => Ok(PropValue::MultipleInteger32(read_counted_i32(reader)?)),
        PropType::MultipleFloating32 => Ok(PropValue::MultipleFloating32(read_counted_u32(reader)?)),
        PropType::MultipleFloating64 => Ok(PropValue::MultipleFloating64(read_counted_u64(reader)?)),
        PropType::MultipleCurrency => Ok(PropValue::MultipleCurrency(read_counted_i64(reader)?)),
        PropType::MultipleFloatingTime => Ok(PropValue::MultipleFloatingTime(read_counted_u64(reader)?)),
        PropType::MultipleInteger64 => Ok(PropValue::MultipleInteger64(read_counted_i64(reader)?)),
        PropType::MultipleString8 => Ok(PropValue::MultipleString8(read_utf8_array(reader)?)),
        PropType::MultipleString => Ok(PropValue::MultipleString(read_utf16_array(reader)?)),
        PropType::MultipleTime => Ok(PropValue::MultipleTime(read_counted_i64(reader)?)),
        PropType::MultipleGuid => Ok(PropValue::MultipleGuid(read_counted_guid(reader)?)),
        PropType::MultipleBinary => Ok(PropValue::MultipleBinary(read_raw_bytes_array(reader)?)),
        PropType::Other(code) => Ok(PropValue::String(read_codepage_string(reader, code)?)),
    }
}

/// Reads the element at the reader's position.
pub fn read_element(reader: &mut BinaryReader<'_>) -> (r: Result<Element, TnefReadError>)
    requires
        old(reader)@.len() <= MAX_TEXT_LENGTH,
    ensures
        match r {
            Ok(element) => spec_element(old(reader)@) == done(element@, final(reader)@)
                && final(reader)@.len() < old(reader)@.len(),
            Err(e) => spec_element(old(reader)@) == failed::<ElementView>(e@),
        },
{
    reveal(spec_element);
    proof {
        lemma_element_shortens(reader@);
    }
    let word = next_u32(reader)?;
    match Marker::try_from_repr(word) {
        Some(marker) => Ok(Element::Marker(marker)),
        None => {
            let prop_type = PropType::from_base_type((word % 0x1_0000) as u16);
            let id = read_transfer_id(reader, (word / 0x1_0000) as u16)?;
            proof {
                lemma_transfer_id_shortens((word / 0x1_0000) as u16, old(reader)@.skip(4));
            }
            let value = decode_transfer_value(prop_type, reader)?;
            Ok(Element::Property { prop_type, id, value })
        },
    }
}

/// What identifies a property leaves no more input than it finds.
pub proof fn lemma_transfer_id_shortens(id: u16, s: Seq<u8>)
    ensures
        shortens(spec_transfer_id(id, s), s),
{
    match spec_guid_element(s) {
        Err(e) => {},
        Ok((_, after)) => {
            lemma_name_units_shorten(after.skip(1));
        },
    }
}

/// Decodes the markers and properties that fill `data` to its end.
pub fn parse_message(data: &[u8]) -> (r: Result<Vec<Element>, TnefReadError>)
    requires
        data@.len() <= MAX_TEXT_LENGTH,
    ensures
        match r {
            Ok(elements) => spec_elements(data@) == Ok::<Seq<ElementView>, TnefReadErrorView>(
                element_views(elements@),
            ),
            Err(e) => spec_elements(data@) == Err::<Seq<ElementView>, TnefReadErrorView>(e@),
        },
{
    let mut reader = BinaryReader::new(data);
    let mut elements: Vec<Element> = Vec::new();
    proof {
        match spec_elements(data@) {
            Ok(all) => {
                assert(element_views(elements@) + all =~= all);
            },
            Err(_) => {},
        }
    }
    while reader.remaining() > 0
        invariant
            reader@.len() <= MAX_TEXT_LENGTH,
            spec_elements(data@) == match spec_elements(reader@) {
                Err(e) => Err(e),
                Ok(rest) => Ok(element_views(elements@) + rest),
            },
        decreases reader@.len(),
    {
        let ghost before = element_views(elements@);
        let element = read_element(&mut reader)?;
        elements.push(element);
        proof {
            assert(element_views(elements@) =~= before.push(element@));
            match spec_elements(reader@) {
                Ok(rest) => {
                    assert(before + (seq![element@] + rest) =~= element_views(elements@) + rest);
                },
                Err(_) => {},
            }
        }
    }
    proof {
        assert(element_views(elements@) + Seq::<ElementView>::empty() =~= element_views(elements@));
    }
    Ok(elements)
}

} // verus!
