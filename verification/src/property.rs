//! The property decoder of TNEF attribute payloads: a property is a type
//! code, a tag, for named properties a property set and a name or number,
//! and a value laid out as its type demands.

use vstd::prelude::*;
use crate::binread::{
    le32, take_bytes, take_i16_le, take_i32_le, take_i64_le, take_u16_le, take_u32_le,
    take_u64_le, take_u8, BinaryReader,
};
use crate::error::{end_of_input, TnefReadError, TnefReadErrorView};
use crate::grammar::{
    aligned, aligned_rest, done, failed, lemma_padded_aligned, lemma_repeat_aligned, lemma_repeat_end,
    lemma_repeat_step, next_bytes, next_i16, next_i32, next_i64, next_padding, next_u16, next_u32,
    next_u64, next_u8, next_units, padded, prepend, repeat, take_units, Decoded,
};
use crate::guid::{guid_from_le, Guid};
use crate::prop_tag::PropTag;
use crate::prop_type::PropType;
use crate::prop_value::{byte_strings, texts, PropValue, PropValueView};
use crate::property_layout::{
    is_single_variable, lemma_property_header, lemma_single_value_property_advance,
    single_value_span, tag_code_of, type_code_of,
};
use crate::text::{
    codepage_text, string_from_utf16, utf16_text, TextEncoding, MAX_TEXT_LENGTH,
};

verus! {

/// How a named property is identified within its property set.
#[derive(Clone, Copy, Debug, PartialEq, Eq)]
pub enum PropIdType {
    /// By a number (`0`).
    Number,
    /// By a name (`1`).
    String,
}

impl PropIdType {
    /// The kind that `value` denotes, if it denotes one.
    pub open spec fn spec_try_from_repr(value: u32) -> Option<Self> {
        if value == 0 {
            Some(Self::Number)
        } else if value == 1 {
            Some(Self::String)
        } else {
            None
        }
    }

    /// The number that denotes this kind.
    pub open spec fn spec_into_repr(&self) -> u32 {
        match self {
            Self::Number => 0,
            Self::String => 1,
        }
    }

    /// The kind that `value` denotes, if it denotes one.
    #[verifier::when_used_as_spec(spec_try_from_repr)]
    pub fn try_from_repr(value: u32) -> (r: Option<Self>)
        ensures
            r == Self::spec_try_from_repr(value),
    {
        if value == 0 {
            Some(Self::Number)
        } else if value == 1 {
            Some(Self::String)
        } else {
            None
        }
    }

    /// The number that denotes this kind.
    #[verifier::when_used_as_spec(spec_into_repr)]
    pub fn into_repr(&self) -> (value: u32)
        ensures
            value == self.spec_into_repr(),
    {
        match self {
            Self::Number => 0,
            Self::String => 1,
        }
    }
}

/// The name or number of a named property within its property set.
#[derive(Clone, Debug, PartialEq, Eq)]
pub enum PropId {
    Number(u32),
    String(String),
}

/// The identifier of a named property as contracts speak of it.
pub enum PropIdView {
    Number(u32),
    String(Seq<char>),
}

impl View for PropId {
    type V = PropIdView;

    open spec fn view(&self) -> PropIdView {
        match self {
            Self::Number(number) => PropIdView::Number(*number),
            Self::String(name) => PropIdView::String(name@),
        }
    }
}

/// A decoded property.
#[derive(Clone, Debug, PartialEq)]
pub struct Property {
    pub tag: PropTag,
    pub property_type: PropType,
    pub id: Option<(Guid, PropId)>,
    pub value: PropValue,
}

/// A property as contracts speak of it.
pub struct PropertyView {
    pub tag: PropTag,
    pub property_type: PropType,
    pub id: Option<(Guid, PropIdView)>,
    pub value: PropValueView,
}

impl View for Property {
    type V = PropertyView;

    open spec fn view(&self) -> PropertyView {
        PropertyView {
            tag: self.tag,
            property_type: self.property_type,
            id: match self.id {
                None => None,
                Some((set, id)) => Some((set, id@)),
            },
            value: self.value@,
        }
    }
}

impl PropertyView {
    /// Whether the value is of the declared type, and the property carries a
    /// property set and identifier exactly if its tag is that of a named
    /// property.
    pub open spec fn well_formed(self) -> bool {
        &&& self.value.prop_type() == self.property_type
        &&& (self.id is Some <==> self.tag.spec_to_base_type() >= 0x8000)
    }
}

/// Whether every property of a list is well formed.
pub open spec fn all_well_formed(properties: Seq<PropertyView>) -> bool {
    forall|i: int| 0 <= i < properties.len() ==> (#[trigger] properties[i]).well_formed()
}

/// Whether every property of every list is well formed.
pub open spec fn lists_well_formed(lists: Seq<Seq<PropertyView>>) -> bool {
    forall|i: int| 0 <= i < lists.len() ==> all_well_formed(#[trigger] lists[i])
}

/// A list stays well formed when a well-formed property is added to it.
pub proof fn lemma_push_well_formed(properties: Seq<PropertyView>, property: PropertyView)
    requires
        all_well_formed(properties),
        property.well_formed(),
    ensures
        all_well_formed(properties.push(property)),
{
}

/// Lists stay well formed when a well-formed list is added to them.
pub proof fn lemma_push_list_well_formed(lists: Seq<Seq<PropertyView>>, list: Seq<PropertyView>)
    requires
        lists_well_formed(lists),
        all_well_formed(list),
    ensures
        lists_well_formed(lists.push(list)),
{
}

/// The views of the properties of a list.
pub open spec fn property_views(properties: Seq<Property>) -> Seq<PropertyView> {
    Seq::new(properties.len(), |i: int| properties[i]@)
}

/// The views of the property lists of a table.
pub open spec fn property_list_views(lists: Seq<Vec<Property>>) -> Seq<Seq<PropertyView>> {
    Seq::new(lists.len(), |i: int| property_views(lists[i]@))
}

/// A signed 16-bit number, padded to a multiple of four bytes.
pub open spec fn spec_i16_element(s: Seq<u8>) -> Decoded<i16> {
    padded(take_i16_le(s), 2)
}

/// A signed 32-bit number, padded to a multiple of four bytes.
pub open spec fn spec_i32_element(s: Seq<u8>) -> Decoded<i32> {
    padded(take_i32_le(s), 4)
}

/// An unsigned 32-bit number, padded to a multiple of four bytes.
pub open spec fn spec_u32_element(s: Seq<u8>) -> Decoded<u32> {
    padded(take_u32_le(s), 4)
}

/// A signed 64-bit number, padded to a multiple of four bytes.
pub open spec fn spec_i64_element(s: Seq<u8>) -> Decoded<i64> {
    padded(take_i64_le(s), 8)
}

/// An unsigned 64-bit number, padded to a multiple of four bytes.
pub open spec fn spec_u64_element(s: Seq<u8>) -> Decoded<u64> {
    padded(take_u64_le(s), 8)
}

/// A truth value: one byte that is 0 or 1, and three bytes of padding.
pub open spec fn spec_boolean(s: Seq<u8>) -> Decoded<bool> {
    match take_u8(s) {
        None => Err(end_of_input()),
        Some((byte, rest)) => if byte == 0 || byte == 1 {
            padded(Some((byte == 1, rest)), 1)
        } else {
            Err(TnefReadErrorView::InvalidBoolean { obtained: byte })
        },
    }
}

/// An identifier in 16 bytes, its numeric fields little-endian.
pub open spec fn spec_guid_element(s: Seq<u8>) -> Decoded<Guid> {
    match take_bytes(s, 16) {
        None => Err(end_of_input()),
        Some((bytes, rest)) => Ok((guid_from_le(bytes), rest)),
    }
}

/// A byte string: a 32-bit length, that many bytes, and padding to a
/// multiple of four.
pub open spec fn spec_binary_element(s: Seq<u8>) -> Decoded<Seq<u8>> {
    match take_u32_le(s) {
        None => Err(end_of_input()),
        Some((length, rest)) => padded(take_bytes(rest, length as nat), length as nat),
    }
}

/// A text in the code page `code_page`, laid out as a byte string.
pub open spec fn spec_string8_element(code_page: u16, s: Seq<u8>) -> Decoded<Seq<char>> {
    match spec_binary_element(s) {
        Err(e) => Err(e),
        Ok((bytes, rest)) => Ok((codepage_text(code_page, bytes), rest)),
    }
}

/// A UTF-16 text: a 32-bit length in bytes, which must be even, that many
/// bytes of little-endian code units, which must be well formed, and
/// padding to a multiple of four.
pub open spec fn spec_string_element(s: Seq<u8>) -> Decoded<Seq<char>> {
    match take_u32_le(s) {
        None => Err(end_of_input()),
        Some((length, rest)) => if length % 2 != 0 {
            Err(TnefReadErrorView::OddStringLength { byte_length: length as usize })
        } else {
            match take_units(rest, (length / 2) as nat) {
                None => Err(end_of_input()),
                Some((units, after)) => match utf16_text(units) {
                    None => Err(TnefReadErrorView::InvalidString { obtained: units }),
                    Some(text) => padded(Some((text, after)), length as nat),
                },
            }
        },
    }
}

/// The decoder of the elements of an array, as a value.
pub open spec fn i16_decoder() -> spec_fn(Seq<u8>) -> Decoded<i16> {
    |s: Seq<u8>| spec_i16_element(s)
}

/// The decoder of the elements of an array, as a value.
pub open spec fn i32_decoder() -> spec_fn(Seq<u8>) -> Decoded<i32> {
    |s: Seq<u8>| spec_i32_element(s)
}

/// The decoder of the elements of an array, as a value.
pub open spec fn u32_decoder() -> spec_fn(Seq<u8>) -> Decoded<u32> {
    |s: Seq<u8>| spec_u32_element(s)
}

/// The decoder of the elements of an array, as a value.
pub open spec fn i64_decoder() -> spec_fn(Seq<u8>) -> Decoded<i64> {
    |s: Seq<u8>| spec_i64_element(s)
}

/// The decoder of the elements of an array, as a value.
pub open spec fn u64_decoder() -> spec_fn(Seq<u8>) -> Decoded<u64> {
    |s: Seq<u8>| spec_u64_element(s)
}

/// The decoder of the elements of an array, as a value.
pub open spec fn guid_decoder() -> spec_fn(Seq<u8>) -> Decoded<Guid> {
    |s: Seq<u8>| spec_guid_element(s)
}

/// The decoder of the elements of an array, as a value.
pub open spec fn binary_decoder() -> spec_fn(Seq<u8>) -> Decoded<Seq<u8>> {
    |s: Seq<u8>| spec_binary_element(s)
}

/// The decoder of the elements of an array, as a value.
pub open spec fn string_decoder() -> spec_fn(Seq<u8>) -> Decoded<Seq<char>> {
    |s: Seq<u8>| spec_string_element(s)
}

/// The decoder of the elements of an array of code-page texts, as a value.
pub open spec fn string8_decoder(code_page: u16) -> spec_fn(Seq<u8>) -> Decoded<Seq<char>> {
    |s: Seq<u8>| spec_string8_element(code_page, s)
}

/// An array: a 32-bit count, and that many elements.
pub open spec fn counted<T>(element: spec_fn(Seq<u8>) -> Decoded<T>, s: Seq<u8>) -> Decoded<Seq<T>> {
    match take_u32_le(s) {
        None => Err(end_of_input()),
        Some((count, rest)) => repeat(element, count as nat, rest),
    }
}

/// The count that precedes the one value of a single-valued type of
/// variable length: it must be 1.
pub open spec fn spec_single_count(prop_type: PropType, s: Seq<u8>) -> Decoded<()> {
    match take_u32_le(s) {
        None => Err(end_of_input()),
        Some((count, rest)) => if count != 1 {
            Err(TnefReadErrorView::MultipleValuesSingleType { prop_type, count })
        } else {
            Ok(((), rest))
        },
    }
}

/// The value of the type `prop_type` at the start of `s`, with 8-bit text
/// read in the code page `code_page`. Only the code of the type counts. A
/// type without a name of its own has no layout and is refused.
pub open spec fn spec_value(prop_type: PropType, code_page: u16, s: Seq<u8>) -> Decoded<PropValueView> {
    match PropType::spec_from_base_type(prop_type.spec_to_base_type()) {
        PropType::Unspecified => Ok((PropValueView::Unspecified, s)),
        PropType::Null => Ok((PropValueView::Null, s)),
        PropType::Integer16 => match spec_i16_element(s) {
            Err(e) => Err(e),
            Ok((value, rest)) => Ok((PropValueView::Integer16(value), rest)),
        },
        PropType::Integer32 => match spec_i32_element(s) {
            Err(e) => Err(e),
            Ok((value, rest)) => Ok((PropValueView::Integer32(value), rest)),
        },
        PropType::Floating32 => match spec_u32_element(s) {
            Err(e) => Err(e),
            Ok((value, rest)) => Ok((PropValueView::Floating32(value), rest)),
        },
        PropType::Floating64 => match spec_u64_element(s) {
            Err(e) => Err(e),
            Ok((value, rest)) => Ok((PropValueView::Floating64(value), rest)),
        },
        PropType::Currency => match spec_i64_element(s) {
            Err(e) => Err(e),
            Ok((value, rest)) => Ok((PropValueView::Currency(value), rest)),
        },
        PropType::FloatingTime => match spec_u64_element(s) {
            Err(e) => Err(e),
            Ok((value, rest)) => Ok((PropValueView::FloatingTime(value), rest)),
        },
        PropType::ErrorCode => match spec_u32_element(s) {
            Err(e) => Err(e),
            Ok((value, rest)) => Ok((PropValueView::ErrorCode(value), rest)),
        },
        PropType::Boolean => match spec_boolean(s) {
            Err(e) => Err(e),
            Ok((value, rest)) => Ok((PropValueView::Boolean(value), rest)),
        },
        PropType::Object => match spec_single_count(PropType::Object, s) {
            Err(e) => Err(e),
            Ok((_, rest)) => match spec_binary_element(rest) {
                Err(e) => Err(e),
                Ok((value, after)) => Ok((PropValueView::Object(value), after)),
            },
        },
        PropType::Integer64 => match spec_i64_element(s) {
            Err(e) => Err(e),
            Ok((value, rest)) => Ok((PropValueView::Integer64(value), rest)),
        },
        PropType::String8 => match spec_single_count(PropType::String8, s) {
            Err(e) => Err(e),
            Ok((_, rest)) => match spec_string8_element(code_page, rest) {
                Err(e) => Err(e),
                Ok((value, after)) => Ok((PropValueView::String8(value), after)),
            },
        },
        PropType::String => match spec_single_count(PropType::String, s) {
            Err(e) => Err(e),
            Ok((_, rest)) => match spec_string_element(rest) {
                Err(e) => Err(e),
                Ok((value, after)) => Ok((PropValueView::String(value), after)),
            },
        },
        PropType::Time => match spec_i64_element(s) {
            Err(e) => Err(e),
            Ok((value, rest)) => Ok((PropValueView::Time(value), rest)),
        },
        PropType::Guid => match spec_guid_element(s) {
            Err(e) => Err(e),
            Ok((value, rest)) => Ok((PropValueView::Guid(value), rest)),
        },
        PropType::Binary => match spec_single_count(PropType::Binary, s) {
            Err(e) => Err(e),
            Ok((_, rest)) => match spec_binary_element(rest) {
                Err(e) => Err(e),
                Ok((value, after)) => Ok((PropValueView::Binary(value), after)),
            },
        },
        PropType::MultipleInteger16 => match counted(i16_decoder(), s) {
            Err(e) => Err(e),
            Ok((value, rest)) => Ok((PropValueView::MultipleInteger16(value), rest)),
        },
        PropType::MultipleInteger32 => match counted(i32_decoder(), s) {
            Err(e) => Err(e),
            Ok((value, rest)) => Ok((PropValueView::MultipleInteger32(value), rest)),
        },
        PropType::MultipleFloating32 => match counted(u32_decoder(), s) {
            Err(e) => Err(e),
            Ok((value, rest)) => Ok((PropValueView::MultipleFloating32(value), rest)),
        },
        PropType::MultipleFloating64 => match counted(u64_decoder(), s) {
            Err(e) => Err(e),
            Ok((value, rest)) => Ok((PropValueView::MultipleFloating64(value), rest)),
        },
        PropType::MultipleCurrency => match counted(i64_decoder(), s) {
            Err(e) => Err(e),
            Ok((value, rest)) => Ok((PropValueView::MultipleCurrency(value), rest)),
        },
        PropType::MultipleFloatingTime => match counted(u64_decoder(), s) {
            Err(e) => Err(e),
            Ok((value, rest)) => Ok((PropValueView::MultipleFloatingTime(value), rest)),
        },
        PropType::MultipleInteger64 => match counted(i64_decoder(), s) {
            Err(e) => Err(e),
            Ok((value, rest)) => Ok((PropValueView::MultipleInteger64(value), rest)),
        },
        PropType::MultipleString8 => match counted(string8_decoder(code_page), s) {
            Err(e) => Err(e),
            Ok((value, rest)) => Ok((PropValueView::MultipleString8(value), rest)),
        },
        PropType::MultipleString => match counted(string_decoder(), s) {
            Err(e) => Err(e),
            Ok((value, rest)) => Ok((PropValueView::MultipleString(value), rest)),
        },
        PropType::MultipleTime => match counted(i64_decoder(), s) {
            Err(e) => Err(e),
            Ok((value, rest)) => Ok((PropValueView::MultipleTime(value), rest)),
        },
        PropType::MultipleGuid => match counted(guid_decoder(), s) {
            Err(e) => Err(e),
            Ok((value, rest)) => Ok((PropValueView::MultipleGuid(value), rest)),
        },
        PropType::MultipleBinary => match counted(binary_decoder(), s) {
            Err(e) => Err(e),
            Ok((value, rest)) => Ok((PropValueView::MultipleBinary(value), rest)),
        },
        PropType::Other(code) => Err(TnefReadErrorView::InvalidPropertyType { property_type: code }),
    }
}

/// The property set and the name or number of a named property.
pub open spec fn spec_property_id(s: Seq<u8>) -> Decoded<(Guid, PropIdView)> {
    match spec_guid_element(s) {
        Err(e) => Err(e),
        Ok((set, s1)) => match take_u32_le(s1) {
            None => Err(end_of_input()),
            Some((kind, s2)) => match PropIdType::spec_try_from_repr(kind) {
                None => Err(TnefReadErrorView::InvalidIdType { obtained: kind }),
                Some(PropIdType::Number) => match spec_u32_element(s2) {
                    Err(e) => Err(e),
                    Ok((number, s3)) => Ok(((set, PropIdView::Number(number)), s3)),
                },
                Some(PropIdType::String) => match take_u32_le(s2) {
                    None => Err(end_of_input()),
                    Some((length, s3)) => match padded(
                        take_units(s3, (length / 2) as nat),
                        length as nat,
                    ) {
                        Err(e) => Err(e),
                        Ok((units, s4)) => match utf16_text(units) {
                            None => Err(TnefReadErrorView::InvalidStringId { obtained: units }),
                            Some(name) => Ok(((set, PropIdView::String(name)), s4)),
                        },
                    },
                },
            },
        },
    }
}

/// The property set and identifier that follow a tag: present exactly for
/// the tags of named properties.
pub open spec fn spec_optional_id(tag: u16, s: Seq<u8>) -> Decoded<Option<(Guid, PropIdView)>> {
    if tag >= 0x8000 {
        match spec_property_id(s) {
            Err(e) => Err(e),
            Ok((id, rest)) => Ok((Some(id), rest)),
        }
    } else {
        Ok((None, s))
    }
}

/// One property: type code, tag, the identifier of a named property, value.
pub open spec fn spec_property(code_page: u16, s: Seq<u8>) -> Decoded<PropertyView> {
    match take_u16_le(s) {
        None => Err(end_of_input()),
        Some((type_code, s1)) => match take_u16_le(s1) {
            None => Err(end_of_input()),
            Some((tag, s2)) => match spec_optional_id(tag, s2) {
                Err(e) => Err(e),
                Ok((id, s3)) => match spec_value(
                    PropType::spec_from_base_type(type_code),
                    code_page,
                    s3,
                ) {
                    Err(e) => Err(e),
                    Ok((value, s4)) => Ok(
                        (
                            PropertyView {
                                tag: PropTag::spec_from_base_type(tag),
                                property_type: PropType::spec_from_base_type(type_code),
                                id,
                                value,
                            },
                            s4,
                        ),
                    ),
                },
            },
        },
    }
}

/// The decoder of the properties of a list, as a value.
pub open spec fn property_decoder(code_page: u16) -> spec_fn(Seq<u8>) -> Decoded<PropertyView> {
    |s: Seq<u8>| spec_property(code_page, s)
}

/// A property list: a 32-bit count, and that many properties.
pub open spec fn spec_properties(code_page: u16, s: Seq<u8>) -> Decoded<Seq<PropertyView>> {
    counted(property_decoder(code_page), s)
}

/// The decoder of the lists of a table, as a value.
pub open spec fn property_list_decoder(code_page: u16) -> spec_fn(Seq<u8>) -> Decoded<
    Seq<PropertyView>,
> {
    |s: Seq<u8>| spec_properties(code_page, s)
}

/// A table of property lists: a 32-bit count, and that many lists.
pub open spec fn spec_property_lists(code_page: u16, s: Seq<u8>) -> Decoded<Seq<Seq<PropertyView>>> {
    counted(property_list_decoder(code_page), s)
}

/// Reads a signed 16-bit number and its padding.
fn read_i16_element(reader: &mut BinaryReader<'_>) -> (r: Result<i16, TnefReadError>)
    ensures
        match r {
            Ok(v) => spec_i16_element(old(reader)@) == done(v, final(reader)@),
            Err(e) => spec_i16_element(old(reader)@) == failed::<i16>(e@),
        },
{
    let value = next_i16(reader)?;
    next_padding(reader, 2)?;
    Ok(value)
}

/// Reads a signed 32-bit number.
fn read_i32_element(reader: &mut BinaryReader<'_>) -> (r: Result<i32, TnefReadError>)
    ensures
        match r {
            Ok(v) => spec_i32_element(old(reader)@) == done(v, final(reader)@),
            Err(e) => spec_i32_element(old(reader)@) == failed::<i32>(e@),
        },
{
    let value = next_i32(reader)?;
    next_padding(reader, 4)?;
    Ok(value)
}

/// Reads an unsigned 32-bit number.
fn read_u32_element(reader: &mut BinaryReader<'_>) -> (r: Result<u32, TnefReadError>)
    ensures
        match r {
            Ok(v) => spec_u32_element(old(reader)@) == done(v, final(reader)@),
            Err(e) => spec_u32_element(old(reader)@) == failed::<u32>(e@),
        },
{
    let value = next_u32(reader)?;
    next_padding(reader, 4)?;
    Ok(value)
}

/// Reads a signed 64-bit number.
fn read_i64_element(reader: &mut BinaryReader<'_>) -> (r: Result<i64, TnefReadError>)
    ensures
        match r {
            Ok(v) => spec_i64_element(old(reader)@) == done(v, final(reader)@),
            Err(e) => spec_i64_element(old(reader)@) == failed::<i64>(e@),
        },
{
    let value = next_i64(reader)?;
    next_padding(reader, 8)?;
    Ok(value)
}

/// Reads an unsigned 64-bit number.
fn read_u64_element(reader: &mut BinaryReader<'_>) -> (r: Result<u64, TnefReadError>)
    ensures
        match r {
            Ok(v) => spec_u64_element(old(reader)@) == done(v, final(reader)@),
            Err(e) => spec_u64_element(old(reader)@) == failed::<u64>(e@),
        },
{
    let value = next_u64(reader)?;
    next_padding(reader, 8)?;
    Ok(value)
}

/// Reads a truth value and its padding.
fn read_boolean(reader: &mut BinaryReader<'_>) -> (r: Result<bool, TnefReadError>)
    ensures
        match r {
            Ok(v) => spec_boolean(old(reader)@) == done(v, final(reader)@),
            Err(e) => spec_boolean(old(reader)@) == failed::<bool>(e@),
        },
{
    let byte = next_u8(reader)?;
    let value = if byte == 0 {
        false
    } else if byte == 1 {
        true
    } else {
        return Err(TnefReadError::InvalidBoolean { obtained: byte });
    };
    next_padding(reader, 1)?;
    Ok(value)
}

/// Reads an identifier.
pub(crate) fn read_guid_element(reader: &mut BinaryReader<'_>) -> (r: Result<Guid, TnefReadError>)
    ensures
        match r {
            Ok(v) => spec_guid_element(old(reader)@) == done(v, final(reader)@),
            Err(e) => spec_guid_element(old(reader)@) == failed::<Guid>(e@),
        },
{
    let bytes = next_bytes(reader, 16)?;
    Ok(Guid::from_le_bytes(bytes.as_slice()).unwrap())
}

/// Reads a byte string: its length, its bytes and its padding.
fn read_binary_element(reader: &mut BinaryReader<'_>) -> (r: Result<Vec<u8>, TnefReadError>)
    ensures
        match r {
            Ok(v) => spec_binary_element(old(reader)@) == done(v@, final(reader)@),
            Err(e) => spec_binary_element(old(reader)@) == failed::<Seq<u8>>(e@),
        },
{
    let length = next_u32(reader)?;
    let bytes = next_bytes(reader, length as usize)?;
    next_padding(reader, length as usize)?;
    Ok(bytes)
}

/// Reads a text in the code page of `encoding`.
fn read_string8_element(reader: &mut BinaryReader<'_>, encoding: TextEncoding) -> (r: Result<
    String,
    TnefReadError,
>)
    requires
        old(reader)@.len() <= MAX_TEXT_LENGTH,
    ensures
        match r {
            Ok(v) => spec_string8_element(encoding.spec_code_page(), old(reader)@) == done(
                v@,
                final(reader)@,
            ),
            Err(e) => spec_string8_element(encoding.spec_code_page(), old(reader)@) == failed::<
                Seq<char>,
            >(e@),
        },
{
    let bytes = read_binary_element(reader)?;
    Ok(encoding.decode(bytes.as_slice()))
}

/// Reads a UTF-16 text: its length, its code units and its padding.
fn read_string_element(reader: &mut BinaryReader<'_>) -> (r: Result<String, TnefReadError>)
    ensures
        match r {
            Ok(v) => spec_string_element(old(reader)@) == done(v@, final(reader)@),
            Err(e) => spec_string_element(old(reader)@) == failed::<Seq<char>>(e@),
        },
{
    let length = next_u32(reader)?;
    if length % 2 != 0 {
        return Err(TnefReadError::OddStringLength { byte_length: length as usize });
    }
    let units = next_units(reader, (length / 2) as usize)?;
    let text = match string_from_utf16(&units) {
        Some(text) => text,
        None => return Err(TnefReadError::InvalidString { obtained: units }),
    };
    next_padding(reader, length as usize)?;
    Ok(text)
}

/// Reads the count that precedes the one value of a single-valued type.
pub(crate) fn read_single_count(reader: &mut BinaryReader<'_>, prop_type: PropType) -> (r: Result<
    (),
    TnefReadError,
>)
    ensures
        match r {
            Ok(_) => spec_single_count(prop_type, old(reader)@) == done((), final(reader)@),
            Err(e) => spec_single_count(prop_type, old(reader)@) == failed::<()>(e@),
        },
{
    let count = next_u32(reader)?;
    if count != 1 {
        return Err(TnefReadError::MultipleValuesSingleType { prop_type, count });
    }
    Ok(())
}

/// Reads an array of signed 16-bit numbers.
fn read_i16_array(reader: &mut BinaryReader<'_>) -> (r: Result<Vec<i16>, TnefReadError>)
    ensures
        match r {
            Ok(v) => counted(i16_decoder(), old(reader)@) == done(v@, final(reader)@),
            Err(e) => counted(i16_decoder(), old(reader)@) == failed::<Seq<i16>>(e@),
        },
{
    let count = next_u32(reader)?;
    let ghost body = reader@;
    let mut values: Vec<i16> = Vec::new();
    let mut i: u32 = 0;
    while i < count
        invariant
            i <= count,
            counted(i16_decoder(), old(reader)@) == repeat(i16_decoder(), count as nat, body),
            repeat(i16_decoder(), count as nat, body) == prepend(
                values@,
                repeat(i16_decoder(), (count - i) as nat, reader@),
            ),
        decreases count - i,
    {
        proof {
            lemma_repeat_step(i16_decoder(), (count - i) as nat, reader@, values@);
        }
        let value = read_i16_element(reader)?;
        values.push(value);
        i = i + 1;
    }
    proof {
        lemma_repeat_end(i16_decoder(), reader@, values@);
    }
    Ok(values)
}

/// Reads an array of signed 32-bit numbers.
fn read_i32_array(reader: &mut BinaryReader<'_>) -> (r: Result<Vec<i32>, TnefReadError>)
    ensures
        match r {
            Ok(v) => counted(i32_decoder(), old(reader)@) == done(v@, final(reader)@),
            Err(e) => counted(i32_decoder(), old(reader)@) == failed::<Seq<i32>>(e@),
        },
{
    let count = next_u32(reader)?;
    let ghost body = reader@;
    let mut values: Vec<i32> = Vec::new();
    let mut i: u32 = 0;
    while i < count
        invariant
            i <= count,
            counted(i32_decoder(), old(reader)@) == repeat(i32_decoder(), count as nat, body),
            repeat(i32_decoder(), count as nat, body) == prepend(
                values@,
                repeat(i32_decoder(), (count - i) as nat, reader@),
            ),
        decreases count - i,
    {
        proof {
            lemma_repeat_step(i32_decoder(), (count - i) as nat, reader@, values@);
        }
        let value = read_i32_element(reader)?;
        values.push(value);
        i = i + 1;
    }
    proof {
        lemma_repeat_end(i32_decoder(), reader@, values@);
    }
    Ok(values)
}

/// Reads an array of unsigned 32-bit numbers.
fn read_u32_array(reader: &mut BinaryReader<'_>) -> (r: Result<Vec<u32>, TnefReadError>)
    ensures
        match r {
            Ok(v) => counted(u32_decoder(), old(reader)@) == done(v@, final(reader)@),
            Err(e) => counted(u32_decoder(), old(reader)@) == failed::<Seq<u32>>(e@),
        },
{
    let count = next_u32(reader)?;
    let ghost body = reader@;
    let mut values: Vec<u32> = Vec::new();
    let mut i: u32 = 0;
    while i < count
        invariant
            i <= count,
            counted(u32_decoder(), old(reader)@) == repeat(u32_decoder(), count as nat, body),
            repeat(u32_decoder(), count as nat, body) == prepend(
                values@,
                repeat(u32_decoder(), (count - i) as nat, reader@),
            ),
        decreases count - i,
    {
        proof {
            lemma_repeat_step(u32_decoder(), (count - i) as nat, reader@, values@);
        }
        let value = read_u32_element(reader)?;
        values.push(value);
        i = i + 1;
    }
    proof {
        lemma_repeat_end(u32_decoder(), reader@, values@);
    }
    Ok(values)
}

/// Reads an array of signed 64-bit numbers.
fn read_i64_array(reader: &mut BinaryReader<'_>) -> (r: Result<Vec<i64>, TnefReadError>)
    ensures
        match r {
            Ok(v) => counted(i64_decoder(), old(reader)@) == done(v@, final(reader)@),
            Err(e) => counted(i64_decoder(), old(reader)@) == failed::<Seq<i64>>(e@),
        },
{
    let count = next_u32(reader)?;
    let ghost body = reader@;
    let mut values: Vec<i64> = Vec::new();
    let mut i: u32 = 0;
    while i < count
        invariant
            i <= count,
            counted(i64_decoder(), old(reader)@) == repeat(i64_decoder(), count as nat, body),
            repeat(i64_decoder(), count as nat, body) == prepend(
                values@,
                repeat(i64_decoder(), (count - i) as nat, reader@),
            ),
        decreases count - i,
    {
        proof {
            lemma_repeat_step(i64_decoder(), (count - i) as nat, reader@, values@);
        }
        let value = read_i64_element(reader)?;
        values.push(value);
        i = i + 1;
    }
    proof {
        lemma_repeat_end(i64_decoder(), reader@, values@);
    }
    Ok(values)
}

/// Reads an array of unsigned 64-bit numbers.
fn read_u64_array(reader: &mut BinaryReader<'_>) -> (r: Result<Vec<u64>, TnefReadError>)
    ensures
        match r {
            Ok(v) => counted(u64_decoder(), old(reader)@) == done(v@, final(reader)@),
            Err(e) => counted(u64_decoder(), old(reader)@) == failed::<Seq<u64>>(e@),
        },
{
    let count = next_u32(reader)?;
    let ghost body = reader@;
    let mut values: Vec<u64> = Vec::new();
    let mut i: u32 = 0;
    while i < count
        invariant
            i <= count,
            counted(u64_decoder(), old(reader)@) == repeat(u64_decoder(), count as nat, body),
            repeat(u64_decoder(), count as nat, body) == prepend(
                values@,
                repeat(u64_decoder(), (count - i) as nat, reader@),
            ),
        decreases count - i,
    {
        proof {
            lemma_repeat_step(u64_decoder(), (count - i) as nat, reader@, values@);
        }
        let value = read_u64_element(reader)?;
        values.push(value);
        i = i + 1;
    }
    proof {
        lemma_repeat_end(u64_decoder(), reader@, values@);
    }
    Ok(values)
}

/// Reads an array of identifiers.
fn read_guid_array(reader: &mut BinaryReader<'_>) -> (r: Result<Vec<Guid>, TnefReadError>)
    ensures
        match r {
            Ok(v) => counted(guid_decoder(), old(reader)@) == done(v@, final(reader)@),
            Err(e) => counted(guid_decoder(), old(reader)@) == failed::<Seq<Guid>>(e@),
        },
{
    let count = next_u32(reader)?;
    let ghost body = reader@;
    let mut values: Vec<Guid> = Vec::new();
    let mut i: u32 = 0;
    while i < count
        invariant
            i <= count,
            counted(guid_decoder(), old(reader)@) == repeat(guid_decoder(), count as nat, body),
            repeat(guid_decoder(), count as nat, body) == prepend(
                values@,
                repeat(guid_decoder(), (count - i) as nat, reader@),
            ),
        decreases count - i,
    {
        proof {
            lemma_repeat_step(guid_decoder(), (count - i) as nat, reader@, values@);
        }
        let value = read_guid_element(reader)?;
        values.push(value);
        i = i + 1;
    }
    proof {
        lemma_repeat_end(guid_decoder(), reader@, values@);
    }
    Ok(values)
}

/// Reads an array of byte strings.
fn read_binary_array(reader: &mut BinaryReader<'_>) -> (r: Result<Vec<Vec<u8>>, TnefReadError>)
    ensures
        match r {
            Ok(v) => counted(binary_decoder(), old(reader)@) == done(byte_strings(v@), final(reader)@),
            Err(e) => counted(binary_decoder(), old(reader)@) == failed::<Seq<Seq<u8>>>(e@),
        },
{
    let count = next_u32(reader)?;
    let ghost body = reader@;
    let mut values: Vec<Vec<u8>> = Vec::new();
    let mut i: u32 = 0;
    while i < count
        invariant
            i <= count,
            counted(binary_decoder(), old(reader)@) == repeat(binary_decoder(), count as nat, body),
            repeat(binary_decoder(), count as nat, body) == prepend(
                byte_strings(values@),
                repeat(binary_decoder(), (count - i) as nat, reader@),
            ),
        decreases count - i,
    {
        proof {
            lemma_repeat_step(binary_decoder(), (count - i) as nat, reader@, byte_strings(values@));
        }
        let ghost before = byte_strings(values@);
        let value = read_binary_element(reader)?;
        values.push(value);
        i = i + 1;
        assert(byte_strings(values@) =~= before.push(value@));
    }
    proof {
        lemma_repeat_end(binary_decoder(), reader@, byte_strings(values@));
    }
    Ok(values)
}

/// Reads an array of texts in the code page of `encoding`.
fn read_string8_array(reader: &mut BinaryReader<'_>, encoding: TextEncoding) -> (r: Result<
    Vec<String>,
    TnefReadError,
>)
    requires
        old(reader)@.len() <= MAX_TEXT_LENGTH,
    ensures
        match r {
            Ok(v) => counted(string8_decoder(encoding.spec_code_page()), old(reader)@) == done(
                texts(v@),
                final(reader)@,
            ),
            Err(e) => counted(string8_decoder(encoding.spec_code_page()), old(reader)@) == failed::<
                Seq<Seq<char>>,
            >(e@),
        },
{
    let ghost decoder = string8_decoder(encoding.spec_code_page());
    let count = next_u32(reader)?;
    let ghost body = reader@;
    let mut values: Vec<String> = Vec::new();
    let mut i: u32 = 0;
    while i < count
        invariant
            i <= count,
            decoder == string8_decoder(encoding.spec_code_page()),
            reader@.len() <= MAX_TEXT_LENGTH,
            counted(decoder, old(reader)@) == repeat(decoder, count as nat, body),
            repeat(decoder, count as nat, body) == prepend(
                texts(values@),
                repeat(decoder, (count - i) as nat, reader@),
            ),
        decreases count - i,
    {
        proof {
            lemma_repeat_step(decoder, (count - i) as nat, reader@, texts(values@));
        }
        let ghost before = texts(values@);
        let value = read_string8_element(reader, encoding)?;
        values.push(value);
        i = i + 1;
        assert(texts(values@) =~= before.push(value@));
    }
    proof {
        lemma_repeat_end(decoder, reader@, texts(values@));
    }
    Ok(values)
}

/// Reads an array of UTF-16 texts.
fn read_string_array(reader: &mut BinaryReader<'_>) -> (r: Result<Vec<String>, TnefReadError>)
    ensures
        match r {
            Ok(v) => counted(string_decoder(), old(reader)@) == done(texts(v@), final(reader)@),
            Err(e) => counted(string_decoder(), old(reader)@) == failed::<Seq<Seq<char>>>(e@),
        },
{
    let count = next_u32(reader)?;
    let ghost body = reader@;
    let mut values: Vec<String> = Vec::new();
    let mut i: u32 = 0;
    while i < count
        invariant
            i <= count,
            counted(string_decoder(), old(reader)@) == repeat(string_decoder(), count as nat, body),
            repeat(string_decoder(), count as nat, body) == prepend(
                texts(values@),
                repeat(string_decoder(), (count - i) as nat, reader@),
            ),
        decreases count - i,
    {
        proof {
            lemma_repeat_step(string_decoder(), (count - i) as nat, reader@, texts(values@));
        }
        let ghost before = texts(values@);
        let value = read_string_element(reader)?;
        values.push(value);
        i = i + 1;
        assert(texts(values@) =~= before.push(value@));
    }
    proof {
        lemma_repeat_end(string_decoder(), reader@, texts(values@));
    }
    Ok(values)
}

/// Decodes the value of the type `prop_type` at the reader's position,
/// reading 8-bit text in `encoding`.
pub fn decode_value(prop_type: PropType, reader: &mut BinaryReader<'_>, encoding: TextEncoding) -> (r:
    Result<PropValue, TnefReadError>)
    requires
        old(reader)@.len() <= MAX_TEXT_LENGTH,
    ensures
        match r {
            Ok(value) => {
                &&& spec_value(prop_type, encoding.spec_code_page(), old(reader)@) == done(
                    value@,
                    final(reader)@,
                )
                &&& value@.prop_type() == PropType::spec_from_base_type(prop_type.spec_to_base_type())
                &&& aligned_rest(old(reader)@, final(reader)@)
            },
            Err(e) => spec_value(prop_type, encoding.spec_code_page(), old(reader)@) == failed::<
                PropValueView,
            >(e@),
        },
{
    proof {
        lemma_value_well_typed(prop_type, encoding.spec_code_page(), reader@);
        lemma_value_aligned(prop_type, encoding.spec_code_page(), reader@);
    }
    match PropType::from_base_type(prop_type.to_base_type()) {
        PropType::Unspecified => Ok(PropValue::Unspecified),
        PropType::Null => Ok(PropValue::Null),
        PropType::Integer16 => Ok(PropValue::Integer16(read_i16_element(reader)?)),
        PropType::Integer32 => Ok(PropValue::Integer32(read_i32_element(reader)?)),
        PropType::Floating32 => Ok(PropValue::Floating32(read_u32_element(reader)?)),
        PropType::Floating64 => Ok(PropValue::Floating64(read_u64_element(reader)?)),
        PropType::Currency => Ok(PropValue::Currency(read_i64_element(reader)?)),
        PropType::FloatingTime => Ok(PropValue::FloatingTime(read_u64_element(reader)?)),
        PropType::ErrorCode => Ok(PropValue::ErrorCode(read_u32_element(reader)?)),
        PropType::Boolean => Ok(PropValue::Boolean(read_boolean(reader)?)),
        PropType::Object => {
            read_single_count(reader, PropType::Object)?;
            Ok(PropValue::Object(read_binary_element(reader)?))
        },
        PropType::Integer64 => Ok(PropValue::Integer64(read_i64_element(reader)?)),
        PropType::String8 => {
            read_single_count(reader, PropType::String8)?;
            Ok(PropValue::String8(read_string8_element(reader, encoding)?))
        },
        PropType::String => {
            read_single_count(reader, PropType::String)?;
            Ok(PropValue::String(read_string_element(reader)?))
        },
        PropType::Time => Ok(PropValue::Time(read_i64_element(reader)?)),
        PropType::Guid => Ok(PropValue::Guid(read_guid_element(reader)?)),
        PropType::Binary => {
            read_single_count(reader, PropType::Binary)?;
            Ok(PropValue::Binary(read_binary_element(reader)?))
        },
        PropType::MultipleInteger16 => Ok(PropValue::MultipleInteger16(read_i16_array(reader)?)),
        PropType::MultipleInteger32 => Ok(PropValue::MultipleInteger32(read_i32_array(reader)?)),
        PropType::MultipleFloating32 => Ok(PropValue::MultipleFloating32(read_u32_array(reader)?)),
        PropType::MultipleFloating64 => Ok(PropValue::MultipleFloating64(read_u64_array(reader)?)),
        PropType::MultipleCurrency => Ok(PropValue::MultipleCurrency(read_i64_array(reader)?)),
        PropType::MultipleFloatingTime => Ok(PropValue::MultipleFloatingTime(read_u64_array(reader)?)),
        PropType::MultipleInteger64 => Ok(PropValue::MultipleInteger64(read_i64_array(reader)?)),
        PropType::MultipleString8 => Ok(
            PropValue::MultipleString8(read_string8_array(reader, encoding)?),
        ),
        PropType::MultipleString => Ok(PropValue::MultipleString(read_string_array(reader)?)),
        PropType::MultipleTime => Ok(PropValue::MultipleTime(read_i64_array(reader)?)),
        PropType::MultipleGuid => Ok(PropValue::MultipleGuid(read_guid_array(reader)?)),
        PropType::MultipleBinary => Ok(PropValue::MultipleBinary(read_binary_array(reader)?)),
        PropType::Other(code) => Err(TnefReadError::InvalidPropertyType { property_type: code }),
    }
}

/// A decoded value is of the type that was asked for.
pub proof fn lemma_value_well_typed(prop_type: PropType, code_page: u16, s: Seq<u8>)
    ensures
        spec_value(prop_type, code_page, s) matches Ok((value, _)) ==> value.prop_type()
            == PropType::spec_from_base_type(prop_type.spec_to_base_type()),
{
}

/// A decoded value takes a multiple of four bytes of the input.
#[verifier::rlimit(30)]
pub proof fn lemma_value_aligned(prop_type: PropType, code_page: u16, s: Seq<u8>)
    ensures
        aligned(spec_value(prop_type, code_page, s), s),
{
    lemma_elements_aligned(code_page);
    lemma_i16_element_aligned(s);
    lemma_i32_element_aligned(s);
    lemma_u32_element_aligned(s);
    lemma_i64_element_aligned(s);
    lemma_u64_element_aligned(s);
    lemma_boolean_aligned(s);
    lemma_guid_element_aligned(s);
    assert(s.skip(0) =~= s);
    match take_u32_le(s) {
        None => {},
        Some((count, rest)) => {
            lemma_binary_element_aligned(rest);
            lemma_string_element_aligned(rest);
            lemma_string8_element_aligned(code_page, rest);
            lemma_repeat_aligned(i16_decoder(), count as nat, rest);
            lemma_repeat_aligned(i32_decoder(), count as nat, rest);
            lemma_repeat_aligned(u32_decoder(), count as nat, rest);
            lemma_repeat_aligned(i64_decoder(), count as nat, rest);
            lemma_repeat_aligned(u64_decoder(), count as nat, rest);
            lemma_repeat_aligned(guid_decoder(), count as nat, rest);
            lemma_repeat_aligned(binary_decoder(), count as nat, rest);
            lemma_repeat_aligned(string_decoder(), count as nat, rest);
            lemma_repeat_aligned(string8_decoder(code_page), count as nat, rest);
            assert forall|after: Seq<u8>| #[trigger] aligned_rest(rest, after) implies aligned_rest(
                s,
                after,
            ) by {
                assert(after =~= s.skip(s.len() - after.len()));
            }
        },
    }
}

/// A number of 2 bytes and its padding take a multiple of four bytes.
pub proof fn lemma_i16_element_aligned(s: Seq<u8>)
    ensures
        aligned(spec_i16_element(s), s),
{
    match spec_i16_element(s) {
        Err(_) => {},
        Ok((_, rest)) => {
            lemma_padded_aligned(s, 2, rest);
        },
    }
}

/// A number of 4 bytes and its padding take a multiple of four bytes.
pub proof fn lemma_i32_element_aligned(s: Seq<u8>)
    ensures
        aligned(spec_i32_element(s), s),
{
    match spec_i32_element(s) {
        Err(_) => {},
        Ok((_, rest)) => {
            lemma_padded_aligned(s, 4, rest);
        },
    }
}

/// A number of 4 bytes and its padding take a multiple of four bytes.
pub proof fn lemma_u32_element_aligned(s: Seq<u8>)
    ensures
        aligned(spec_u32_element(s), s),
{
    match spec_u32_element(s) {
        Err(_) => {},
        Ok((_, rest)) => {
            lemma_padded_aligned(s, 4, rest);
        },
    }
}

/// A number of 8 bytes and its padding take a multiple of four bytes.
pub proof fn lemma_i64_element_aligned(s: Seq<u8>)
    ensures
        aligned(spec_i64_element(s), s),
{
    match spec_i64_element(s) {
        Err(_) => {},
        Ok((_, rest)) => {
            lemma_padded_aligned(s, 8, rest);
        },
    }
}

/// A number of 8 bytes and its padding take a multiple of four bytes.
pub proof fn lemma_u64_element_aligned(s: Seq<u8>)
    ensures
        aligned(spec_u64_element(s), s),
{
    match spec_u64_element(s) {
        Err(_) => {},
        Ok((_, rest)) => {
            lemma_padded_aligned(s, 8, rest);
        },
    }
}

/// A truth value and its padding take four bytes.
pub proof fn lemma_boolean_aligned(s: Seq<u8>)
    ensures
        aligned(spec_boolean(s), s),
{
    match spec_boolean(s) {
        Err(_) => {},
        Ok((_, rest)) => {
            lemma_padded_aligned(s, 1, rest);
        },
    }
}

/// An identifier takes sixteen bytes.
pub proof fn lemma_guid_element_aligned(s: Seq<u8>)
    ensures
        aligned(spec_guid_element(s), s),
{
    match spec_guid_element(s) {
        Err(_) => {},
        Ok((_, rest)) => {
            assert(s.skip(16) =~= s.skip(s.len() - s.skip(16).len()));
        },
    }
}

/// A byte string with its length and its padding takes a multiple of four
/// bytes.
pub proof fn lemma_binary_element_aligned(s: Seq<u8>)
    ensures
        aligned(spec_binary_element(s), s),
{
    match spec_binary_element(s) {
        Err(_) => {},
        Ok((_, rest)) => {
            let length = take_u32_le(s).unwrap().0;
            lemma_padded_aligned(s.skip(4), length as nat, rest);
            assert(rest =~= s.skip(s.len() - rest.len()));
        },
    }
}

/// A UTF-16 text with its length and its padding takes a multiple of four
/// bytes.
pub proof fn lemma_string_element_aligned(s: Seq<u8>)
    ensures
        aligned(spec_string_element(s), s),
{
    match spec_string_element(s) {
        Err(_) => {},
        Ok((_, rest)) => {
            let length = take_u32_le(s).unwrap().0;
            assert(2 * ((length / 2) as nat) == length);
            lemma_padded_aligned(s.skip(4), length as nat, rest);
            assert(rest =~= s.skip(s.len() - rest.len()));
        },
    }
}

/// A code-page text with its length and its padding takes a multiple of
/// four bytes.
pub proof fn lemma_string8_element_aligned(code_page: u16, s: Seq<u8>)
    ensures
        aligned(spec_string8_element(code_page, s), s),
{
    lemma_binary_element_aligned(s);
}

/// Every element of an array takes a multiple of four bytes of the input.
pub proof fn lemma_elements_aligned(code_page: u16)
    ensures
        forall|s: Seq<u8>| aligned(#[trigger] i16_decoder()(s), s),
        forall|s: Seq<u8>| aligned(#[trigger] i32_decoder()(s), s),
        forall|s: Seq<u8>| aligned(#[trigger] u32_decoder()(s), s),
        forall|s: Seq<u8>| aligned(#[trigger] i64_decoder()(s), s),
        forall|s: Seq<u8>| aligned(#[trigger] u64_decoder()(s), s),
        forall|s: Seq<u8>| aligned(#[trigger] guid_decoder()(s), s),
        forall|s: Seq<u8>| aligned(#[trigger] binary_decoder()(s), s),
        forall|s: Seq<u8>| aligned(#[trigger] string_decoder()(s), s),
        forall|s: Seq<u8>| aligned(#[trigger] string8_decoder(code_page)(s), s),
{
    assert forall|s: Seq<u8>| aligned(#[trigger] i16_decoder()(s), s) by {
        lemma_i16_element_aligned(s);
    }
    assert forall|s: Seq<u8>| aligned(#[trigger] i32_decoder()(s), s) by {
        lemma_i32_element_aligned(s);
    }
    assert forall|s: Seq<u8>| aligned(#[trigger] u32_decoder()(s), s) by {
        lemma_u32_element_aligned(s);
    }
    assert forall|s: Seq<u8>| aligned(#[trigger] i64_decoder()(s), s) by {
        lemma_i64_element_aligned(s);
    }
    assert forall|s: Seq<u8>| aligned(#[trigger] u64_decoder()(s), s) by {
        lemma_u64_element_aligned(s);
    }
    assert forall|s: Seq<u8>| aligned(#[trigger] guid_decoder()(s), s) by {
        lemma_guid_element_aligned(s);
    }
    assert forall|s: Seq<u8>| aligned(#[trigger] binary_decoder()(s), s) by {
        lemma_binary_element_aligned(s);
    }
    assert forall|s: Seq<u8>| aligned(#[trigger] string_decoder()(s), s) by {
        lemma_string_element_aligned(s);
    }
    assert forall|s: Seq<u8>| aligned(#[trigger] string8_decoder(code_page)(s), s) by {
        lemma_string8_element_aligned(code_page, s);
    }
}

/// Reads the property set and the name or number of a named property.
fn read_property_id(reader: &mut BinaryReader<'_>) -> (r: Result<(Guid, PropId), TnefReadError>)
    ensures
        match r {
            Ok(id) => spec_property_id(old(reader)@) == done((id.0, id.1@), final(reader)@),
            Err(e) => spec_property_id(old(reader)@) == failed::<(Guid, PropIdView)>(e@),
        },
{
    let set = read_guid_element(reader)?;
    let kind = next_u32(reader)?;
    match PropIdType::try_from_repr(kind) {
        None => Err(TnefReadError::InvalidIdType { obtained: kind }),
        Some(PropIdType::Number) => {
            let number = read_u32_element(reader)?;
            Ok((set, PropId::Number(number)))
        },
        Some(PropIdType::String) => {
            let length = next_u32(reader)?;
            let units = next_units(reader, (length / 2) as usize)?;
            next_padding(reader, length as usize)?;
            match string_from_utf16(&units) {
                Some(name) => Ok((set, PropId::String(name))),
                None => Err(TnefReadError::InvalidStringId { obtained: units }),
            }
        },
    }
}

/// Decodes the property at the reader's position, reading 8-bit text in
/// `encoding`.
pub fn decode_property(reader: &mut BinaryReader<'_>, encoding: TextEncoding) -> (r: Result<
    Property,
    TnefReadError,
>)
    requires
        old(reader)@.len() <= MAX_TEXT_LENGTH,
    ensures
        match r {
            Ok(property) => {
                &&& spec_property(encoding.spec_code_page(), old(reader)@) == done(
                    property@,
                    final(reader)@,
                )
                &&& property@.well_formed()
                &&& final(reader)@.len() <= old(reader)@.len()
                &&& property.property_type == PropType::spec_from_base_type(
                    type_code_of(old(reader)@),
                )
                &&& property.tag == PropTag::spec_from_base_type(tag_code_of(old(reader)@))
                &&& (property.id is Some <==> tag_code_of(old(reader)@) >= 0x8000)
                &&& is_single_variable(type_code_of(old(reader)@)) && tag_code_of(old(reader)@)
                    < 0x8000 ==> final(reader)@ == old(reader)@.skip(
                    single_value_span(le32(old(reader)@.skip(8)) as nat) as int,
                )
            },
            Err(e) => spec_property(encoding.spec_code_page(), old(reader)@) == failed::<PropertyView>(
                e@,
            ),
        },
{
    proof {
        lemma_property_well_formed(encoding.spec_code_page(), reader@);
        lemma_property_header(encoding.spec_code_page(), reader@);
        if is_single_variable(type_code_of(reader@)) && tag_code_of(reader@) < 0x8000 {
            lemma_single_value_property_advance(encoding.spec_code_page(), reader@);
        }
    }
    let type_code = next_u16(reader)?;
    let tag = next_u16(reader)?;
    let id = if tag >= 0x8000 {
        Some(read_property_id(reader)?)
    } else {
        None
    };
    let property_type = PropType::from_base_type(type_code);
    let value = decode_value(property_type, reader, encoding)?;
    Ok(Property { tag: PropTag::from_base_type(tag), property_type, id, value })
}

/// A decoded property is well formed: its value is of the declared type,
/// and it carries a property set and identifier exactly if its tag is that
/// of a named property. It leaves no more input than there was.
pub proof fn lemma_property_well_formed(code_page: u16, s: Seq<u8>)
    ensures
        spec_property(code_page, s) matches Ok((property, rest)) ==> property.well_formed()
            && rest.len() <= s.len(),
{
    match take_u16_le(s) {
        None => {},
        Some((type_code, s1)) => match take_u16_le(s1) {
            None => {},
            Some((tag, s2)) => match spec_optional_id(tag, s2) {
                Err(e) => {},
                Ok((id, s3)) => {
                    PropType::lemma_code_round_trip(type_code);
                    PropTag::lemma_code_round_trip(tag);
                    lemma_value_well_typed(PropType::spec_from_base_type(type_code), code_page, s3);
                    lemma_value_aligned(PropType::spec_from_base_type(type_code), code_page, s3);
                },
            },
        },
    }
}

/// Decodes a property list: a count and that many properties.
pub fn decode_properties(reader: &mut BinaryReader<'_>, encoding: TextEncoding) -> (r: Result<
    Vec<Property>,
    TnefReadError,
>)
    requires
        old(reader)@.len() <= MAX_TEXT_LENGTH,
    ensures
        match r {
            Ok(properties) => {
                &&& spec_properties(encoding.spec_code_page(), old(reader)@) == done(
                    property_views(properties@),
                    final(reader)@,
                )
                &&& all_well_formed(property_views(properties@))
                &&& final(reader)@.len() <= old(reader)@.len()
            },
            Err(e) => spec_properties(encoding.spec_code_page(), old(reader)@) == failed::<
                Seq<PropertyView>,
            >(e@),
        },
{
    let ghost decoder = property_decoder(encoding.spec_code_page());
    let count = next_u32(reader)?;
    let ghost body = reader@;
    let mut properties: Vec<Property> = Vec::new();
    let mut i: u32 = 0;
    while i < count
        invariant
            i <= count,
            decoder == property_decoder(encoding.spec_code_page()),
            reader@.len() <= body.len() <= MAX_TEXT_LENGTH,
            body.len() <= old(reader)@.len(),
            counted(decoder, old(reader)@) == repeat(decoder, count as nat, body),
            repeat(decoder, count as nat, body) == prepend(
                property_views(properties@),
                repeat(decoder, (count - i) as nat, reader@),
            ),
            all_well_formed(property_views(properties@)),
        decreases count - i,
    {
        proof {
            lemma_repeat_step(decoder, (count - i) as nat, reader@, property_views(properties@));
        }
        let ghost before = property_views(properties@);
        let property = decode_property(reader, encoding)?;
        properties.push(property);
        i = i + 1;
        proof {
            assert(property_views(properties@) =~= before.push(property@));
            lemma_push_well_formed(before, property@);
        }
    }
    proof {
        lemma_repeat_end(decoder, reader@, property_views(properties@));
    }
    Ok(properties)
}

/// Decodes a table of property lists: a count and that many lists.
pub fn decode_property_lists(reader: &mut BinaryReader<'_>, encoding: TextEncoding) -> (r: Result<
    Vec<Vec<Property>>,
    TnefReadError,
>)
    requires
        old(reader)@.len() <= MAX_TEXT_LENGTH,
    ensures
        match r {
            Ok(lists) => {
                &&& spec_property_lists(encoding.spec_code_page(), old(reader)@) == done(
                    property_list_views(lists@),
                    final(reader)@,
                )
                &&& lists_well_formed(property_list_views(lists@))
            },
            Err(e) => spec_property_lists(encoding.spec_code_page(), old(reader)@) == failed::<
                Seq<Seq<PropertyView>>,
            >(e@),
        },
{
    let ghost decoder = property_list_decoder(encoding.spec_code_page());
    let count = next_u32(reader)?;
    let ghost body = reader@;
    let mut lists: Vec<Vec<Property>> = Vec::new();
    let mut i: u32 = 0;
    while i < count
        invariant
            i <= count,
            decoder == property_list_decoder(encoding.spec_code_page()),
            reader@.len() <= body.len() <= MAX_TEXT_LENGTH,
            body.len() <= old(reader)@.len(),
            counted(decoder, old(reader)@) == repeat(decoder, count as nat, body),
            repeat(decoder, count as nat, body) == prepend(
                property_list_views(lists@),
                repeat(decoder, (count - i) as nat, reader@),
            ),
            lists_well_formed(property_list_views(lists@)),
        decreases count - i,
    {
        proof {
            lemma_repeat_step(decoder, (count - i) as nat, reader@, property_list_views(lists@));
        }
        let ghost before = property_list_views(lists@);
        let list = decode_properties(reader, encoding)?;
        lists.push(list);
        i = i + 1;
        proof {
            assert(property_list_views(lists@) =~= before.push(property_views(list@)));
            lemma_push_list_well_formed(before, property_views(list@));
        }
    }
    proof {
        lemma_repeat_end(decoder, reader@, property_list_views(lists@));
    }
    Ok(lists)
}

} // verus!
