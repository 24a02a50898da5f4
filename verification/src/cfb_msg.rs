//! The ".msg" message in a compound file: property streams for the
//! message, its recipients and its attachments, with the values that do
//! not fit a record in streams of their own.

use vstd::prelude::*;
use vstd::string::StringExecFns;
use vstd::utf8::{decode_utf8, valid_utf8};
use crate::binread::{
    le16, le32, le64, signed16, signed32, signed64, take_bytes, take_u16_le, take_u32_le,
    BinaryReader, IoFailure,
};
use crate::container::{
    container_of, container_streams, open_container, read_stream, Container, StreamOutcome, Streams,
};
use crate::error::{end_of_input, TnefReadError, TnefReadErrorView};
use crate::grammar::{next_bytes, next_u16, next_u32, next_units, repeat, take_units, Decoded};
use crate::guid::{guid_from_le, Guid};
use crate::hex::{push_upper_hex, upper_hex};
use crate::prop_tag::PropTag;
use crate::prop_type::PropType;
use crate::prop_value::{byte_strings, texts, PropValue, PropValueView};
use crate::packed::{
    packed_guid, packed_i16, packed_i32, packed_i64, packed_u32, packed_u64, read_packed_guid,
    read_packed_i16, read_packed_i32, read_packed_i64, read_packed_u32, read_packed_u64,
};
use crate::text::{string_from_utf16, string_from_utf8, utf16_text};

verus! {

/// The first four bytes of a compound file, read as a little-endian number.
pub const CFB_SIGNATURE_4BYTES: u32 = 0xE011_CFD0;

/// The first eight bytes of a compound file, read as a little-endian number.
pub const CFB_SIGNATURE: u64 = 0xE11A_B1A1_E011_CFD0;

/// The length of the header of the message's own property stream.
pub const ROOT_HEADER_LENGTH: usize = 32;

/// The length of the header of the property stream of a recipient or an
/// attachment.
pub const ITEM_HEADER_LENGTH: usize = 8;

/// A property of a message, a recipient or an attachment.
#[derive(Clone, Debug, PartialEq)]
pub struct Property {
    pub property_type: PropType,
    pub tag: PropTag,
    pub flags: u32,
    pub value: PropValue,
}

/// A property as contracts speak of it.
pub struct PropertyView {
    pub property_type: PropType,
    pub tag: PropTag,
    pub flags: u32,
    pub value: PropValueView,
}

impl View for Property {
    type V = PropertyView;

    open spec fn view(&self) -> PropertyView {
        PropertyView {
            property_type: self.property_type,
            tag: self.tag,
            flags: self.flags,
            value: self.value@,
        }
    }
}

impl PropertyView {
    /// Whether the value is of the declared type.
    pub open spec fn well_formed(self) -> bool {
        self.value.prop_type() == self.property_type
    }
}

/// Whether every property of a list is well formed.
pub open spec fn all_well_formed(properties: Seq<PropertyView>) -> bool {
    forall|i: int| 0 <= i < properties.len() ==> (#[trigger] properties[i]).well_formed()
}

/// Whether every property of every list is well formed.
pub open spec fn lists_well_formed(lists: Seq<Seq<PropertyView>>) -> bool {
    forall|i: int| 0 <= i < lists.len() ==> all_well_formed(#[trigger] lists[i])
}

/// A list stays well formed when a well-formed property is added to it.
pub proof fn lemma_push_well_formed(properties: Seq<PropertyView>, property: PropertyView)
    requires
        all_well_formed(properties),
        property.well_formed(),
    ensures
        all_well_formed(properties.push(property)),
{
}

/// Lists stay well formed when a well-formed list is added to them.
pub proof fn lemma_push_list_well_formed(lists: Seq<Seq<PropertyView>>, list: Seq<PropertyView>)
    requires
        lists_well_formed(lists),
        all_well_formed(list),
    ensures
        lists_well_formed(lists.push(list)),
{
}

/// The views of the properties of a list.
pub open spec fn property_views(properties: Seq<Property>) -> Seq<PropertyView> {
    Seq::new(properties.len(), |i: int| properties[i]@)
}

/// A recipient of a message.
#[derive(Clone, Debug, PartialEq)]
pub struct Recipient {
    pub properties: Vec<Property>,
}

/// An attachment of a message.
#[derive(Clone, Debug, PartialEq)]
pub struct Attachment {
    pub properties: Vec<Property>,
}

/// A message with its recipients and attachments.
#[derive(Clone, Debug, PartialEq)]
pub struct Msg {
    pub properties: Vec<Property>,
    pub recipients: Vec<Recipient>,
    pub attachments: Vec<Attachment>,
}

/// A message as contracts speak of it.
pub struct MsgView {
    pub properties: Seq<PropertyView>,
    pub recipients: Seq<Seq<PropertyView>>,
    pub attachments: Seq<Seq<PropertyView>>,
}

impl View for Recipient {
    type V = Seq<PropertyView>;

    open spec fn view(&self) -> Seq<PropertyView> {
        property_views(self.properties@)
    }
}

impl View for Attachment {
    type V = Seq<PropertyView>;

    open spec fn view(&self) -> Seq<PropertyView> {
        property_views(self.properties@)
    }
}

impl MsgView {
    /// Whether every property of the message, of its recipients and of its
    /// attachments holds a value of its declared type.
    pub open spec fn well_formed(self) -> bool {
        &&& all_well_formed(self.properties)
        &&& lists_well_formed(self.recipients)
        &&& lists_well_formed(self.attachments)
    }
}

/// The property lists of the recipients of a list.
pub open spec fn recipient_views(recipients: Seq<Recipient>) -> Seq<Seq<PropertyView>> {
    Seq::new(recipients.len(), |i: int| recipients[i]@)
}

/// The property lists of the attachments of a list.
pub open spec fn attachment_views(attachments: Seq<Attachment>) -> Seq<Seq<PropertyView>> {
    Seq::new(attachments.len(), |i: int| attachments[i]@)
}

impl View for Msg {
    type V = MsgView;

    open spec fn view(&self) -> MsgView {
        MsgView {
            properties: property_views(self.properties@),
            recipients: recipient_views(self.recipients@),
            attachments: attachment_views(self.attachments@),
        }
    }
}

/// Where the value of a property of a given type is stored.
#[derive(Clone, Copy, Debug, PartialEq, Eq)]
pub enum Storage {
    /// The type cannot appear in a property stream.
    Unsupported,
    /// In the eight bytes that end the record.
    Inline,
    /// In one stream of its own.
    SingleStream,
    /// In one stream for each element, with a stream of lengths beside them.
    MultiStream,
}

/// Where the value of a property of the type `prop_type` is stored.
pub open spec fn storage_of(prop_type: PropType) -> Storage {
    match PropType::spec_from_base_type(prop_type.spec_to_base_type()) {
        PropType::Unspecified | PropType::Null | PropType::Other(_) => Storage::Unsupported,
        PropType::Integer16
        | PropType::Integer32
        | PropType::Floating32
        | PropType::Floating64
        | PropType::Boolean
        | PropType::Currency
        | PropType::FloatingTime
        | PropType::Time
        | PropType::Integer64
        | PropType::ErrorCode => Storage::Inline,
        PropType::String
        | PropType::Binary
        | PropType::String8
        | PropType::Guid
        | PropType::Object
        | PropType::MultipleInteger16
        | PropType::MultipleInteger32
        | PropType::MultipleFloating32
        | PropType::MultipleFloating64
        | PropType::MultipleCurrency
        | PropType::MultipleFloatingTime
        | PropType::MultipleTime
        | PropType::MultipleGuid
        | PropType::MultipleInteger64 => Storage::SingleStream,
        PropType::MultipleBinary | PropType::MultipleString8 | PropType::MultipleString => {
            Storage::MultiStream
        },
    }
}

/// Where the value of a property of the type `prop_type` is stored.
pub fn storage(prop_type: PropType) -> (r: Storage)
    ensures
        r == storage_of(prop_type),
{
    match PropType::from_base_type(prop_type.to_base_type()) {
        PropType::Unspecified | PropType::Null | PropType::Other(_) => Storage::Unsupported,
        PropType::Integer16
        | PropType::Integer32
        | PropType::Floating32
        | PropType::Floating64
        | PropType::Boolean
        | PropType::Currency
        | PropType::FloatingTime
        | PropType::Time
        | PropType::Integer64
        | PropType::ErrorCode => Storage::Inline,
        PropType::String
        | PropType::Binary
        | PropType::String8
        | PropType::Guid
        | PropType::Object
        | PropType::MultipleInteger16
        | PropType::MultipleInteger32
        | PropType::MultipleFloating32
        | PropType::MultipleFloating64
        | PropType::MultipleCurrency
        | PropType::MultipleFloatingTime
        | PropType::MultipleTime
        | PropType::MultipleGuid
        | PropType::MultipleInteger64 => Storage::SingleStream,
        PropType::MultipleBinary | PropType::MultipleString8 | PropType::MultipleString => {
            Storage::MultiStream
        },
    }
}

/// The path of the property stream of the storage at `prefix`.
pub open spec fn properties_path(prefix: Seq<char>) -> Seq<char> {
    prefix + "/__properties_version1.0"@
}

/// The path of the stream that holds the value of a property, or the
/// lengths of its elements.
pub open spec fn value_path(prefix: Seq<char>, tag: u16, type_code: u16) -> Seq<char> {
    prefix + "/__substg1.0_"@ + upper_hex(tag as nat, 4) + upper_hex(type_code as nat, 4)
}

/// The path of the stream that holds one element of a property.
pub open spec fn element_path(prefix: Seq<char>, tag: u16, type_code: u16, index: nat) -> Seq<char> {
    value_path(prefix, tag, type_code) + "-"@ + upper_hex(index, 8)
}

/// The path of the storage of the recipient `index`.
pub open spec fn recipient_prefix(index: nat) -> Seq<char> {
    "/__recip_version1.0_#"@ + upper_hex(index, 8)
}

/// The path of the storage of the attachment `index`.
pub open spec fn attachment_prefix(index: nat) -> Seq<char> {
    "/__attach_version1.0_#"@ + upper_hex(index, 8)
}

/// The path of the property stream of the storage at `prefix`.
pub fn make_properties_path(prefix: &str) -> (path: String)
    ensures
        path@ == properties_path(prefix@),
{
    let mut path = String::from_str(prefix);
    path.append("/__properties_version1.0");
    path
}

/// The path of the stream that holds the value of a property, or the
/// lengths of its elements.
pub fn make_value_path(prefix: &str, tag: u16, type_code: u16) -> (path: String)
    ensures
        path@ == value_path(prefix@, tag, type_code),
{
    let mut path = String::from_str(prefix);
    path.append("/__substg1.0_");
    push_upper_hex(&mut path, tag as u64, 4);
    push_upper_hex(&mut path, type_code as u64, 4);
    path
}

/// The path of the stream that holds one element of a property.
pub fn make_element_path(prefix: &str, tag: u16, type_code: u16, index: usize) -> (path: String)
    ensures
        path@ == element_path(prefix@, tag, type_code, index as nat),
{
    let mut path = make_value_path(prefix, tag, type_code);
    path.append("-");
    push_upper_hex(&mut path, index as u64, 8);
    path
}

/// The path of the storage of the recipient `index`.
pub fn make_recipient_prefix(index: u32) -> (path: String)
    ensures
        path@ == recipient_prefix(index as nat),
{
    let mut path = String::from_str("/__recip_version1.0_#");
    push_upper_hex(&mut path, index as u64, 8);
    path
}

/// The path of the storage of the attachment `index`.
pub fn make_attachment_prefix(index: u32) -> (path: String)
    ensures
        path@ == attachment_prefix(index as nat),
{
    let mut path = String::from_str("/__attach_version1.0_#");
    push_upper_hex(&mut path, index as u64, 8);
    path
}

/// The value of an inline type in the eight bytes that end a record: the
/// low bytes of the field, as many as the type is wide. The first byte of
/// a truth value must be 0 or 1. A type that is not stored inline is
/// refused.
pub open spec fn spec_inline(prop_type: PropType, field: Seq<u8>) -> Result<
    PropValueView,
    TnefReadErrorView,
> {
    match PropType::spec_from_base_type(prop_type.spec_to_base_type()) {
        PropType::Integer16 => Ok(PropValueView::Integer16(signed16(le16(field)) as i16)),
        PropType::Integer32 => Ok(PropValueView::Integer32(signed32(le32(field)) as i32)),
        PropType::Floating32 => Ok(PropValueView::Floating32(le32(field) as u32)),
        PropType::Floating64 => Ok(PropValueView::Floating64(le64(field) as u64)),
        PropType::Boolean => if field[0] == 0 || field[0] == 1 {
            Ok(PropValueView::Boolean(field[0] == 1))
        } else {
            Err(TnefReadErrorView::InvalidBoolean { obtained: field[0] })
        },
        PropType::Currency => Ok(PropValueView::Currency(signed64(le64(field)) as i64)),
        PropType::FloatingTime => Ok(PropValueView::FloatingTime(le64(field) as u64)),
        PropType::Time => Ok(PropValueView::Time(signed64(le64(field)) as i64)),
        PropType::Integer64 => Ok(PropValueView::Integer64(signed64(le64(field)) as i64)),
        PropType::ErrorCode => Ok(PropValueView::ErrorCode(le32(field) as u32)),
        _ => Err(
            TnefReadErrorView::InvalidPropertyType { property_type: prop_type.spec_to_base_type() },
        ),
    }
}

/// Decodes the value of an inline type from the eight bytes that end a
/// record.
pub fn decode_inline(prop_type: PropType, field: &[u8; 8]) -> (r: Result<PropValue, TnefReadError>)
    ensures
        match r {
            Ok(value) => spec_inline(prop_type, field@) == Ok::<PropValueView, TnefReadErrorView>(
                value@,
            ) && value@.prop_type() == PropType::spec_from_base_type(prop_type.spec_to_base_type()),
            Err(e) => spec_inline(prop_type, field@) == Err::<PropValueView, TnefReadErrorView>(e@)
                && !e@.from_container(),
        },
{
    let mut reader = BinaryReader::new(field.as_slice());
    match PropType::from_base_type(prop_type.to_base_type()) {
        PropType::Integer16 => Ok(PropValue::Integer16(reader.read_i16_le().unwrap())),
        PropType::Integer32 => Ok(PropValue::Integer32(reader.read_i32_le().unwrap())),
        PropType::Floating32 => Ok(PropValue::Floating32(reader.read_u32_le().unwrap())),
        PropType::Floating64 => Ok(PropValue::Floating64(reader.read_u64_le().unwrap())),
        PropType::Boolean => {
            let byte = field[0];
            if byte == 0 {
                Ok(PropValue::Boolean(false))
            } else if byte == 1 {
                Ok(PropValue::Boolean(true))
            } else {
                Err(TnefReadError::InvalidBoolean { obtained: byte })
            }
        },
        PropType::Currency => Ok(PropValue::Currency(reader.read_i64_le().unwrap())),
        PropType::FloatingTime => Ok(PropValue::FloatingTime(reader.read_u64_le().unwrap())),
        PropType::Time => Ok(PropValue::Time(reader.read_i64_le().unwrap())),
        PropType::Integer64 => Ok(PropValue::Integer64(reader.read_i64_le().unwrap())),
        PropType::ErrorCode => Ok(PropValue::ErrorCode(reader.read_u32_le().unwrap())),
        _ => Err(TnefReadError::InvalidPropertyType { property_type: prop_type.to_base_type() }),
    }
}

/// The elements of `width` bytes each that fill `bytes` exactly, or `None`
/// where the length of `bytes` is no multiple of `width`.
pub open spec fn spec_packed<T>(
    element: spec_fn(Seq<u8>) -> Decoded<T>,
    width: nat,
    bytes: Seq<u8>,
) -> Option<Seq<T>> {
    if bytes.len() % width != 0 {
        None
    } else {
        match repeat(element, bytes.len() / width, bytes) {
            Ok((values, _)) => Some(values),
            Err(_) => None,
        }
    }
}

/// The text that a stream of UTF-16 code units holds, or `None` where it
/// has an odd number of bytes or is not well formed.
pub open spec fn spec_text16(bytes: Seq<u8>) -> Option<Seq<char>> {
    if bytes.len() % 2 != 0 {
        None
    } else {
        match take_units(bytes, bytes.len() / 2) {
            None => None,
            Some((units, _)) => utf16_text(units),
        }
    }
}

/// The text that a stream of 8-bit text holds, read as UTF-8, or `None`
/// where it is not valid UTF-8.
pub open spec fn spec_text8(bytes: Seq<u8>) -> Option<Seq<char>> {
    if valid_utf8(bytes) {
        Some(decode_utf8(bytes))
    } else {
        None
    }
}

/// The value of a type that is stored in one stream, given the bytes of
/// that stream, or `None` where the bytes do not fit the type.
pub open spec fn spec_stream_value(prop_type: PropType, bytes: Seq<u8>) -> Option<PropValueView> {
    match PropType::spec_from_base_type(prop_type.spec_to_base_type()) {
        PropType::String => match spec_text16(bytes) {
            None => None,
            Some(text) => Some(PropValueView::String(text)),
        },
        PropType::Binary => Some(PropValueView::Binary(bytes)),
        PropType::String8 => match spec_text8(bytes) {
            None => None,
            Some(text) => Some(PropValueView::String8(text)),
        },
        PropType::Guid => if bytes.len() == 16 {
            Some(PropValueView::Guid(guid_from_le(bytes)))
        } else {
            None
        },
        PropType::Object => Some(PropValueView::Object(bytes)),
        PropType::MultipleInteger16 => match spec_packed(packed_i16(), 2, bytes) {
            None => None,
            Some(values) => Some(PropValueView::MultipleInteger16(values)),
        },
        PropType::MultipleInteger32 => match spec_packed(packed_i32(), 4, bytes) {
            None => None,
            Some(values) => Some(PropValueView::MultipleInteger32(values)),
        },
        PropType::MultipleFloating32 => match spec_packed(packed_u32(), 4, bytes) {
            None => None,
            Some(values) => Some(PropValueView::MultipleFloating32(values)),
        },
        PropType::MultipleFloating64 => match spec_packed(packed_u64(), 8, bytes) {
            None => None,
            Some(values) => Some(PropValueView::MultipleFloating64(values)),
        },
        PropType::MultipleCurrency => match spec_packed(packed_i64(), 8, bytes) {
            None => None,
            Some(values) => Some(PropValueView::MultipleCurrency(values)),
        },
        PropType::MultipleFloatingTime => match spec_packed(packed_u64(), 8, bytes) {
            None => None,
            Some(values) => Some(PropValueView::MultipleFloatingTime(values)),
        },
        PropType::MultipleTime => match spec_packed(packed_i64(), 8, bytes) {
            None => None,
            Some(values) => Some(PropValueView::MultipleTime(values)),
        },
        PropType::MultipleGuid => match spec_packed(packed_guid(), 16, bytes) {
            None => None,
            Some(values) => Some(PropValueView::MultipleGuid(values)),
        },
        PropType::MultipleInteger64 => match spec_packed(packed_i64(), 8, bytes) {
            None => None,
            Some(values) => Some(PropValueView::MultipleInteger64(values)),
        },
        _ => None,
    }
}

/// Decodes the elements of 2 bytes each that fill `bytes`.
pub fn decode_packed_i16(bytes: &[u8]) -> (r: Option<Vec<i16>>)
    ensures
        match r {
            Some(values) => spec_packed(packed_i16(), 2, bytes@) == Some(values@),
            None => spec_packed(packed_i16(), 2, bytes@) is None,
        },
{
    if bytes.len() % 2 != 0 {
        return None;
    }
    let mut reader = BinaryReader::new(bytes);
    match read_packed_i16(&mut reader, bytes.len() / 2) {
        Ok(values) => Some(values),
        Err(_) => None,
    }
}

/// Decodes the elements of 4 bytes each that fill `bytes`.
pub fn decode_packed_i32(bytes: &[u8]) -> (r: Option<Vec<i32>>)
    ensures
        match r {
            Some(values) => spec_packed(packed_i32(), 4, bytes@) == Some(values@),
            None => spec_packed(packed_i32(), 4, bytes@) is None,
        },
{
    if bytes.len() % 4 != 0 {
        return None;
    }
    let mut reader = BinaryReader::new(bytes);
    match read_packed_i32(&mut reader, bytes.len() / 4) {
        Ok(values) => Some(values),
        Err(_) => None,
    }
}

/// Decodes the elements of 4 bytes each that fill `bytes`.
pub fn decode_packed_u32(bytes: &[u8]) -> (r: Option<Vec<u32>>)
    ensures
        match r {
            Some(values) => spec_packed(packed_u32(), 4, bytes@) == Some(values@),
            None => spec_packed(packed_u32(), 4, bytes@) is None,
        },
{
    if bytes.len() % 4 != 0 {
        return None;
    }
    let mut reader = BinaryReader::new(bytes);
    match read_packed_u32(&mut reader, bytes.len() / 4) {
        Ok(values) => Some(values),
        Err(_) => None,
    }
}

/// Decodes the elements of 8 bytes each that fill `bytes`.
pub fn decode_packed_i64(bytes: &[u8]) -> (r: Option<Vec<i64>>)
    ensures
        match r {
            Some(values) => spec_packed(packed_i64(), 8, bytes@) == Some(values@),
            None => spec_packed(packed_i64(), 8, bytes@) is None,
        },
{
    if bytes.len() % 8 != 0 {
        return None;
    }
    let mut reader = BinaryReader::new(bytes);
    match read_packed_i64(&mut reader, bytes.len() / 8) {
        Ok(values) => Some(values),
        Err(_) => None,
    }
}

/// Decodes the elements of 8 bytes each that fill `bytes`.
pub fn decode_packed_u64(bytes: &[u8]) -> (r: Option<Vec<u64>>)
    ensures
        match r {
            Some(values) => spec_packed(packed_u64(), 8, bytes@) == Some(values@),
            None => spec_packed(packed_u64(), 8, bytes@) is None,
        },
{
    if bytes.len() % 8 != 0 {
        return None;
    }
    let mut reader = BinaryReader::new(bytes);
    match read_packed_u64(&mut reader, bytes.len() / 8) {
        Ok(values) => Some(values),
        Err(_) => None,
    }
}

/// Decodes the elements of 16 bytes each that fill `bytes`.
pub fn decode_packed_guid(bytes: &[u8]) -> (r: Option<Vec<Guid>>)
    ensures
        match r {
            Some(values) => spec_packed(packed_guid(), 16, bytes@) == Some(values@),
            None => spec_packed(packed_guid(), 16, bytes@) is None,
        },
{
    if bytes.len() % 16 != 0 {
        return None;
    }
    let mut reader = BinaryReader::new(bytes);
    match read_packed_guid(&mut reader, bytes.len() / 16) {
        Ok(values) => Some(values),
        Err(_) => None,
    }
}

/// Decodes the text that a stream of UTF-16 code units holds.
pub fn decode_text16(bytes: &[u8]) -> (r: Option<String>)
    ensures
        match r {
            Some(text) => spec_text16(bytes@) == Some(text@),
            None => spec_text16(bytes@) is None,
        },
{
    if bytes.len() % 2 != 0 {
        return None;
    }
    let mut reader = BinaryReader::new(bytes);
    match next_units(&mut reader, bytes.len() / 2) {
        Ok(units) => string_from_utf16(&units),
        Err(_) => None,
    }
}

/// Decodes the text that a stream of 8-bit text holds, read as UTF-8.
pub fn decode_text8(bytes: &[u8]) -> (r: Option<String>)
    ensures
        match r {
            Some(text) => spec_text8(bytes@) == Some(text@),
            None => spec_text8(bytes@) is None,
        },
{
    string_from_utf8(bytes)
}

/// Decodes the value of a type that is stored in one stream from the bytes
/// of that stream.
pub fn decode_stream_value(prop_type: PropType, bytes: Vec<u8>) -> (r: Option<PropValue>)
    ensures
        match r {
            Some(value) => spec_stream_value(prop_type, bytes@) == Some(value@) && value@.prop_type()
                == PropType::spec_from_base_type(prop_type.spec_to_base_type()),
            None => spec_stream_value(prop_type, bytes@) is None,
        },
{
    match PropType::from_base_type(prop_type.to_base_type()) {
        PropType::String => match decode_text16(bytes.as_slice()) {
            Some(text) => Some(PropValue::String(text)),
            None => None,
        },
        PropType::Binary => Some(PropValue::Binary(bytes)),
        PropType::String8 => match decode_text8(bytes.as_slice()) {
            Some(text) => Some(PropValue::String8(text)),
            None => None,
        },
        PropType::Guid => match Guid::from_le_bytes(bytes.as_slice()) {
            Some(guid) => Some(PropValue::Guid(guid)),
            None => None,
        },
        PropType::Object => Some(PropValue::Object(bytes)),
        PropType::MultipleInteger16 => match decode_packed_i16(bytes.as_slice()) {
            Some(values) => Some(PropValue::MultipleInteger16(values)),
            None => None,
        },
        PropType::MultipleInteger32 => match decode_packed_i32(bytes.as_slice()) {
            Some(values) => Some(PropValue::MultipleInteger32(values)),
            None => None,
        },
        PropType::MultipleFloating32 => match decode_packed_u32(bytes.as_slice()) {
            Some(values) => Some(PropValue::MultipleFloating32(values)),
            None => None,
        },
        PropType::MultipleFloating64 => match decode_packed_u64(bytes.as_slice()) {
            Some(values) => Some(PropValue::MultipleFloating64(values)),
            None => None,
        },
        PropType::MultipleCurrency => match decode_packed_i64(bytes.as_slice()) {
            Some(values) => Some(PropValue::MultipleCurrency(values)),
            None => None,
        },
        PropType::MultipleFloatingTime => match decode_packed_u64(bytes.as_slice()) {
            Some(values) => Some(PropValue::MultipleFloatingTime(values)),
            None => None,
        },
        PropType::MultipleTime => match decode_packed_i64(bytes.as_slice()) {
            Some(values) => Some(PropValue::MultipleTime(values)),
            None => None,
        },
        PropType::MultipleGuid => match decode_packed_guid(bytes.as_slice()) {
            Some(values) => Some(PropValue::MultipleGuid(values)),
            None => None,
        },
        PropType::MultipleInteger64 => match decode_packed_i64(bytes.as_slice()) {
            Some(values) => Some(PropValue::MultipleInteger64(values)),
            None => None,
        },
        _ => None,
    }
}

/// What reading from a compound file comes to.
pub enum Outcome<T> {
    /// A stream that is needed could not be opened or read to its end.
    Unreadable,
    /// The property stream is malformed.
    Failed(TnefReadErrorView),
    /// What was read.
    Value(T),
}

/// The outcome that an error stands for.
pub open spec fn failure<T>(error: TnefReadErrorView) -> Outcome<T> {
    if error.from_container() {
        Outcome::Unreadable
    } else {
        Outcome::Failed(error)
    }
}

/// The value of a property that is stored in one stream: nothing where no
/// stream can be opened or where its bytes do not fit the type.
pub open spec fn spec_single_stream(
    streams: Streams,
    prefix: Seq<char>,
    tag: u16,
    type_code: u16,
) -> Outcome<Option<PropValueView>> {
    let path = value_path(prefix, tag, type_code);
    if !streams.contains_key(path) {
        Outcome::Value(None)
    } else {
        match streams[path] {
            None => Outcome::Unreadable,
            Some(bytes) => Outcome::Value(
                spec_stream_value(PropType::spec_from_base_type(type_code), bytes),
            ),
        }
    }
}

/// The element streams `from` to `count - 1` of a property, without those
/// that cannot be opened; `None` where one of them cannot be read to its
/// end.
pub open spec fn spec_element_streams(
    streams: Streams,
    prefix: Seq<char>,
    tag: u16,
    type_code: u16,
    from: nat,
    count: nat,
) -> Option<Seq<Seq<u8>>>
    decreases count - from,
{
    if from >= count {
        Some(Seq::empty())
    } else {
        let path = element_path(prefix, tag, type_code, from);
        let rest = spec_element_streams(streams, prefix, tag, type_code, from + 1, count);
        if !streams.contains_key(path) {
            rest
        } else {
            match (streams[path], rest) {
                (Some(bytes), Some(more)) => Some(seq![bytes] + more),
                _ => None,
            }
        }
    }
}

/// The UTF-16 texts among `elements`: the elements that hold no text are
/// left out.
pub open spec fn spec_texts16(elements: Seq<Seq<u8>>) -> Seq<Seq<char>>
    decreases elements.len(),
{
    if elements.len() == 0 {
        Seq::empty()
    } else {
        match spec_text16(elements[0]) {
            None => spec_texts16(elements.skip(1)),
            Some(text) => seq![text] + spec_texts16(elements.skip(1)),
        }
    }
}

/// The UTF-8 texts among `elements`: the elements that hold no text are
/// left out.
pub open spec fn spec_texts8(elements: Seq<Seq<u8>>) -> Seq<Seq<char>>
    decreases elements.len(),
{
    if elements.len() == 0 {
        Seq::empty()
    } else {
        match spec_text8(elements[0]) {
            None => spec_texts8(elements.skip(1)),
            Some(text) => seq![text] + spec_texts8(elements.skip(1)),
        }
    }
}

/// The number of bytes that the stream of lengths holds for each element.
pub open spec fn length_entry_width(prop_type: PropType) -> nat {
    if PropType::spec_from_base_type(prop_type.spec_to_base_type()) is MultipleBinary {
        8
    } else {
        4
    }
}

/// The value of a multi-stream type, given the element streams that could
/// be opened. `None` for a type that is not stored in this way.
pub open spec fn spec_multi_value(prop_type: PropType, elements: Seq<Seq<u8>>) -> Option<
    PropValueView,
> {
    match PropType::spec_from_base_type(prop_type.spec_to_base_type()) {
        PropType::MultipleBinary => Some(PropValueView::MultipleBinary(elements)),
        PropType::MultipleString => Some(PropValueView::MultipleString(spec_texts16(elements))),
        PropType::MultipleString8 => Some(PropValueView::MultipleString8(spec_texts8(elements))),
        _ => None,
    }
}

/// The value of a property that is stored in one stream for each element:
/// nothing where the stream of lengths cannot be opened or has a length
/// that is no multiple of the width of an entry.
pub open spec fn spec_multi_stream(
    streams: Streams,
    prefix: Seq<char>,
    tag: u16,
    type_code: u16,
) -> Outcome<Option<PropValueView>> {
    let prop_type = PropType::spec_from_base_type(type_code);
    let path = value_path(prefix, tag, type_code);
    if !streams.contains_key(path) {
        Outcome::Value(None)
    } else {
        match streams[path] {
            None => Outcome::Unreadable,
            Some(lengths) => if lengths.len() % length_entry_width(prop_type) != 0 {
                Outcome::Value(None)
            } else {
                match spec_element_streams(
                    streams,
                    prefix,
                    tag,
                    type_code,
                    0,
                    lengths.len() / length_entry_width(prop_type),
                ) {
                    None => Outcome::Unreadable,
                    Some(elements) => Outcome::Value(spec_multi_value(prop_type, elements)),
                }
            },
        }
    }
}

/// The value of the property whose record ends with the eight bytes that
/// `s` starts with, and the bytes that follow them.
pub open spec fn spec_record_value(
    streams: Streams,
    prefix: Seq<char>,
    type_code: u16,
    tag: u16,
    s: Seq<u8>,
) -> Outcome<(Option<PropValueView>, Seq<u8>)> {
    let prop_type = PropType::spec_from_base_type(type_code);
    match storage_of(prop_type) {
        Storage::Unsupported => Outcome::Failed(
            TnefReadErrorView::InvalidPropertyType { property_type: type_code },
        ),
        Storage::Inline => match take_bytes(s, 8) {
            None => Outcome::Failed(end_of_input()),
            Some((field, rest)) => match spec_inline(prop_type, field) {
                Err(e) => Outcome::Failed(e),
                Ok(value) => Outcome::Value((Some(value), rest)),
            },
        },
        Storage::SingleStream | Storage::MultiStream => match take_u32_le(s) {
            None => Outcome::Failed(end_of_input()),
            Some((_, s1)) => match take_u32_le(s1) {
                None => Outcome::Failed(end_of_input()),
                Some((_, rest)) => match if storage_of(prop_type) == Storage::SingleStream {
                    spec_single_stream(streams, prefix, tag, type_code)
                } else {
                    spec_multi_stream(streams, prefix, tag, type_code)
                } {
                    Outcome::Unreadable => Outcome::Unreadable,
                    Outcome::Failed(e) => Outcome::Failed(e),
                    Outcome::Value(value) => Outcome::Value((value, rest)),
                },
            },
        },
    }
}

/// The record at the start of `s`: a type code, a tag, flags, and eight
/// bytes that hold the value or stand for the streams that do. A record
/// whose stream cannot be had, or does not fit the type, is skipped: it
/// yields no property. An inline truth value other than 0 and 1 is an
/// error.
#[verifier::opaque]
pub open spec fn spec_record(streams: Streams, prefix: Seq<char>, s: Seq<u8>) -> Outcome<
    (Option<PropertyView>, Seq<u8>),
> {
    match take_u16_le(s) {
        None => Outcome::Failed(end_of_input()),
        Some((type_code, s1)) => match take_u16_le(s1) {
            None => Outcome::Failed(end_of_input()),
            Some((tag, s2)) => match take_u32_le(s2) {
                None => Outcome::Failed(end_of_input()),
                Some((flags, s3)) => match spec_record_value(streams, prefix, type_code, tag, s3) {
                    Outcome::Unreadable => Outcome::Unreadable,
                    Outcome::Failed(e) => Outcome::Failed(e),
                    Outcome::Value((None, rest)) => Outcome::Value((None, rest)),
                    Outcome::Value((Some(value), rest)) => Outcome::Value(
                        (
                            Some(
                                PropertyView {
                                    property_type: PropType::spec_from_base_type(type_code),
                                    tag: PropTag::spec_from_base_type(tag),
                                    flags,
                                    value,
                                },
                            ),
                            rest,
                        ),
                    ),
                },
            },
        },
    }
}

/// The properties of the records that fill `s` to its end.
pub open spec fn spec_records(streams: Streams, prefix: Seq<char>, s: Seq<u8>) -> Outcome<
    Seq<PropertyView>,
>
    decreases s.len(),
    via spec_records_terminates
{
    if s.len() == 0 {
        Outcome::Value(Seq::empty())
    } else {
        match spec_record(streams, prefix, s) {
            Outcome::Unreadable => Outcome::Unreadable,
            Outcome::Failed(e) => Outcome::Failed(e),
            Outcome::Value((property, rest)) => match spec_records(streams, prefix, rest) {
                Outcome::Unreadable => Outcome::Unreadable,
                Outcome::Failed(e) => Outcome::Failed(e),
                Outcome::Value(more) => Outcome::Value(
                    match property {
                        None => more,
                        Some(property) => seq![property] + more,
                    },
                ),
            },
        }
    }
}

/// Every record shortens the stream, so the records come to an end.
#[via_fn]
proof fn spec_records_terminates(streams: Streams, prefix: Seq<char>, s: Seq<u8>) {
    lemma_record_well_formed(streams, prefix, s);
}

/// The header and the properties of the property stream of the storage at
/// `prefix`.
pub open spec fn spec_directory(streams: Streams, prefix: Seq<char>, header_length: nat) -> Outcome<
    (Seq<u8>, Seq<PropertyView>),
> {
    let path = properties_path(prefix);
    if !streams.contains_key(path) {
        Outcome::Unreadable
    } else {
        match streams[path] {
            None => Outcome::Unreadable,
            Some(bytes) => match take_bytes(bytes, header_length) {
                None => Outcome::Failed(end_of_input()),
                Some((header, rest)) => match spec_records(streams, prefix, rest) {
                    Outcome::Unreadable => Outcome::Unreadable,
                    Outcome::Failed(e) => Outcome::Failed(e),
                    Outcome::Value(properties) => Outcome::Value((header, properties)),
                },
            },
        }
    }
}

/// The path of the storage of a recipient or of an attachment.
pub open spec fn item_prefix(recipient: bool, index: nat) -> Seq<char> {
    if recipient {
        recipient_prefix(index)
    } else {
        attachment_prefix(index)
    }
}

/// The property lists of the recipients, or of the attachments, `from` to
/// `count - 1`.
pub open spec fn spec_items(streams: Streams, recipient: bool, from: nat, count: nat) -> Outcome<
    Seq<Seq<PropertyView>>,
>
    decreases count - from,
{
    if from >= count {
        Outcome::Value(Seq::empty())
    } else {
        match spec_directory(streams, item_prefix(recipient, from), ITEM_HEADER_LENGTH as nat) {
            Outcome::Unreadable => Outcome::Unreadable,
            Outcome::Failed(e) => Outcome::Failed(e),
            Outcome::Value((_, properties)) => match spec_items(streams, recipient, from + 1, count) {
                Outcome::Unreadable => Outcome::Unreadable,
                Outcome::Failed(e) => Outcome::Failed(e),
                Outcome::Value(more) => Outcome::Value(seq![properties] + more),
            },
        }
    }
}

/// The number of recipients that the header of a message declares.
pub open spec fn declared_recipients(header: Seq<u8>) -> nat {
    le32(header.skip(16)) as nat
}

/// The number of attachments that the header of a message declares.
pub open spec fn declared_attachments(header: Seq<u8>) -> nat {
    le32(header.skip(20)) as nat
}

/// The message that the streams of a compound file hold.
pub open spec fn spec_msg(streams: Streams) -> Outcome<MsgView> {
    match spec_directory(streams, Seq::empty(), ROOT_HEADER_LENGTH as nat) {
        Outcome::Unreadable => Outcome::Unreadable,
        Outcome::Failed(e) => Outcome::Failed(e),
        Outcome::Value((header, properties)) => match spec_items(
            streams,
            true,
            0,
            declared_recipients(header),
        ) {
            Outcome::Unreadable => Outcome::Unreadable,
            Outcome::Failed(e) => Outcome::Failed(e),
            Outcome::Value(recipients) => match spec_items(
                streams,
                false,
                0,
                declared_attachments(header),
            ) {
                Outcome::Unreadable => Outcome::Unreadable,
                Outcome::Failed(e) => Outcome::Failed(e),
                Outcome::Value(attachments) => Outcome::Value(
                    MsgView { properties, recipients, attachments },
                ),
            },
        },
    }
}

/// The message that the compound file in `bytes` holds.
pub open spec fn spec_cfb_msg(bytes: Seq<u8>) -> Outcome<MsgView> {
    match container_of(bytes) {
        None => Outcome::Unreadable,
        Some(streams) => spec_msg(streams),
    }
}

/// A property that is read from a record holds a value of the type that
/// the record declares, and the record takes sixteen bytes of the stream.
pub proof fn lemma_record_well_formed(streams: Streams, prefix: Seq<char>, s: Seq<u8>)
    ensures
        spec_record(streams, prefix, s) matches Outcome::Value((property, rest)) ==> {
            &&& rest.len() + 16 == s.len()
            &&& property matches Some(p) ==> p.well_formed()
        },
{
    reveal(spec_record);
    match take_u16_le(s) {
        None => {},
        Some((type_code, s1)) => {
            PropType::lemma_code_round_trip(type_code);
        },
    }
}

/// As many property lists come out as there are storages to read.
pub proof fn lemma_items_count(streams: Streams, recipient: bool, from: nat, count: nat)
    ensures
        spec_items(streams, recipient, from, count) matches Outcome::Value(items) ==> items.len()
            == if from <= count { count - from } else { 0 },
    decreases count - from,
{
    if from < count {
        lemma_items_count(streams, recipient, from + 1, count);
    }
}

/// A message has as many recipients and attachments as its header declares.
pub proof fn lemma_msg_counts(streams: Streams)
    ensures
        spec_msg(streams) matches Outcome::Value(msg) ==> {
            let header = spec_directory(streams, Seq::empty(), ROOT_HEADER_LENGTH as nat)->Value_0.0;
            &&& msg.recipients.len() == declared_recipients(header)
            &&& msg.attachments.len() == declared_attachments(header)
        },
{
    match spec_directory(streams, Seq::empty(), ROOT_HEADER_LENGTH as nat) {
        Outcome::Value((header, _)) => {
            lemma_items_count(streams, true, 0, declared_recipients(header));
            lemma_items_count(streams, false, 0, declared_attachments(header));
        },
        _ => {},
    }
}

/// Reads the value of a property that is stored in one stream.
pub fn read_single_stream(file: &mut Container, prefix: &str, tag: u16, type_code: u16) -> (r: Result<
    Option<PropValue>,
    TnefReadError,
>)
    ensures
        container_streams(*final(file)) == container_streams(*old(file)),
        match r {
            Ok(None) => spec_single_stream(container_streams(*old(file)), prefix@, tag, type_code)
                == Outcome::<Option<PropValueView>>::Value(None),
            Ok(Some(value)) => spec_single_stream(container_streams(*old(file)), prefix@, tag, type_code)
                == Outcome::Value(Some(value@)) && value@.prop_type() == PropType::spec_from_base_type(
                type_code,
            ),
            Err(e) => spec_single_stream(container_streams(*old(file)), prefix@, tag, type_code)
                == failure::<Option<PropValueView>>(e@),
        },
{
    proof {
        PropType::lemma_code_round_trip(type_code);
    }
    let path = make_value_path(prefix, tag, type_code);
    match read_stream(file, path.as_str()) {
        StreamOutcome::NotOpened(_) => Ok(None),
        StreamOutcome::NotRead(error) => Err(TnefReadError::Io(IoFailure::Container(error))),
        StreamOutcome::Read(bytes) => Ok(
            decode_stream_value(PropType::from_base_type(type_code), bytes),
        ),
    }
}

/// Reads the element streams of a property, leaving out those that cannot
/// be opened.
pub fn read_element_streams(
    file: &mut Container,
    prefix: &str,
    tag: u16,
    type_code: u16,
    count: usize,
) -> (r: Result<Vec<Vec<u8>>, TnefReadError>)
    ensures
        container_streams(*final(file)) == container_streams(*old(file)),
        match r {
            Ok(elements) => spec_element_streams(
                container_streams(*old(file)),
                prefix@,
                tag,
                type_code,
                0,
                count as nat,
            ) == Some(byte_strings(elements@)),
            Err(e) => spec_element_streams(
                container_streams(*old(file)),
                prefix@,
                tag,
                type_code,
                0,
                count as nat,
            ) is None && e@ matches TnefReadErrorView::Io(IoFailure::Container(_)),
        },
{
    let ghost streams = container_streams(*file);
    let mut elements: Vec<Vec<u8>> = Vec::new();
    let mut index: usize = 0;
    assert(byte_strings(elements@) + Seq::<Seq<u8>>::empty() =~= byte_strings(elements@));
    while index < count
        invariant
            index <= count,
            streams == container_streams(*old(file)),
            container_streams(*file) == streams,
            spec_element_streams(streams, prefix@, tag, type_code, 0, count as nat)
                == match spec_element_streams(
                streams,
                prefix@,
                tag,
                type_code,
                index as nat,
                count as nat,
            ) {
                None => None,
                Some(more) => Some(byte_strings(elements@) + more),
            },
        decreases count - index,
    {
        let ghost before = byte_strings(elements@);
        let path = make_element_path(prefix, tag, type_code, index);
        match read_stream(file, path.as_str()) {
            StreamOutcome::NotOpened(_) => {},
            StreamOutcome::NotRead(error) => {
                return Err(TnefReadError::Io(IoFailure::Container(error)));
            },
            StreamOutcome::Read(bytes) => {
                elements.push(bytes);
                proof {
                    assert(byte_strings(elements@) =~= before.push(bytes@));
                    match spec_element_streams(
                        streams,
                        prefix@,
                        tag,
                        type_code,
                        (index + 1) as nat,
                        count as nat,
                    ) {
                        None => {},
                        Some(more) => {
                            assert(before + (seq![bytes@] + more) =~= byte_strings(elements@) + more);
                        },
                    }
                }
            },
        }
        index = index + 1;
    }
    proof {
        assert(byte_strings(elements@) + Seq::<Seq<u8>>::empty() =~= byte_strings(elements@));
    }
    Ok(elements)
}

/// Decodes the UTF-16 texts among `elements`, leaving out the elements
/// that hold no text.
pub fn decode_texts16(elements: &Vec<Vec<u8>>) -> (values: Vec<String>)
    ensures
        texts(values@) == spec_texts16(byte_strings(elements@)),
{
    let ghost all = byte_strings(elements@);
    let mut values: Vec<String> = Vec::new();
    let mut index: usize = 0;
    assert(all.skip(0) =~= all);
    assert(texts(values@) + spec_texts16(all) =~= spec_texts16(all));
    while index < elements.len()
        invariant
            index <= elements.len(),
            all == byte_strings(elements@),
            spec_texts16(all) == texts(values@) + spec_texts16(all.skip(index as int)),
        decreases elements.len() - index,
    {
        let ghost before = texts(values@);
        let ghost left = all.skip(index as int);
        proof {
            assert(left.skip(1) =~= all.skip(index + 1));
            assert(left[0] == elements@[index as int]@);
        }
        match decode_text16(elements[index].as_slice()) {
            None => {},
            Some(text) => {
                values.push(text);
                proof {
                    assert(texts(values@) =~= before.push(text@));
                    assert(before + (seq![text@] + spec_texts16(left.skip(1))) =~= texts(values@)
                        + spec_texts16(left.skip(1)));
                }
            },
        }
        index = index + 1;
    }
    proof {
        assert(all.skip(index as int) =~= Seq::<Seq<u8>>::empty());
        assert(texts(values@) + Seq::<Seq<char>>::empty() =~= texts(values@));
    }
    values
}

/// Decodes the UTF-8 texts among `elements`, leaving out the elements that
/// hold no text.
pub fn decode_texts8(elements: &Vec<Vec<u8>>) -> (values: Vec<String>)
    ensures
        texts(values@) == spec_texts8(byte_strings(elements@)),
{
    let ghost all = byte_strings(elements@);
    let mut values: Vec<String> = Vec::new();
    let mut index: usize = 0;
    assert(all.skip(0) =~= all);
    assert(texts(values@) + spec_texts8(all) =~= spec_texts8(all));
    while index < elements.len()
        invariant
            index <= elements.len(),
            all == byte_strings(elements@),
            spec_texts8(all) == texts(values@) + spec_texts8(all.skip(index as int)),
        decreases elements.len() - index,
    {
        let ghost before = texts(values@);
        let ghost left = all.skip(index as int);
        proof {
            assert(left.skip(1) =~= all.skip(index + 1));
            assert(left[0] == elements@[index as int]@);
        }
        match decode_text8(elements[index].as_slice()) {
            None => {},
            Some(text) => {
                values.push(text);
                proof {
                    assert(texts(values@) =~= before.push(text@));
                    assert(before + (seq![text@] + spec_texts8(left.skip(1))) =~= texts(values@)
                        + spec_texts8(left.skip(1)));
                }
            },
        }
        index = index + 1;
    }
    proof {
        assert(all.skip(index as int) =~= Seq::<Seq<u8>>::empty());
        assert(texts(values@) + Seq::<Seq<char>>::empty() =~= texts(values@));
    }
    values
}

/// Makes the value of a multi-stream type of the element streams that
/// could be opened.
pub fn decode_multi_value(prop_type: PropType, elements: Vec<Vec<u8>>) -> (r: Option<PropValue>)
    ensures
        match r {
            Some(value) => spec_multi_value(prop_type, byte_strings(elements@)) == Some(value@)
                && value@.prop_type() == PropType::spec_from_base_type(
                prop_type.spec_to_base_type(),
            ),
            None => spec_multi_value(prop_type, byte_strings(elements@)) is None,
        },
        r is Some <==> storage_of(prop_type) == Storage::MultiStream,
{
    match PropType::from_base_type(prop_type.to_base_type()) {
        PropType::MultipleBinary => Some(PropValue::MultipleBinary(elements)),
        PropType::MultipleString => Some(PropValue::MultipleString(decode_texts16(&elements))),
        PropType::MultipleString8 => Some(PropValue::MultipleString8(decode_texts8(&elements))),
        _ => None,
    }
}

/// Reads the value of a property that is stored in one stream for each
/// element.
pub fn read_multi_stream(file: &mut Container, prefix: &str, tag: u16, type_code: u16) -> (r: Result<
    Option<PropValue>,
    TnefReadError,
>)
    ensures
        container_streams(*final(file)) == container_streams(*old(file)),
        match r {
            Ok(None) => spec_multi_stream(container_streams(*old(file)), prefix@, tag, type_code)
                == Outcome::<Option<PropValueView>>::Value(None),
            Ok(Some(value)) => spec_multi_stream(container_streams(*old(file)), prefix@, tag, type_code)
                == Outcome::Value(Some(value@)) && value@.prop_type() == PropType::spec_from_base_type(
                type_code,
            ),
            Err(e) => spec_multi_stream(container_streams(*old(file)), prefix@, tag, type_code)
                == failure::<Option<PropValueView>>(e@),
        },
{
    proof {
        PropType::lemma_code_round_trip(type_code);
    }
    let prop_type = PropType::from_base_type(type_code);
    let path = make_value_path(prefix, tag, type_code);
    let lengths = match read_stream(file, path.as_str()) {
        StreamOutcome::NotOpened(_) => return Ok(None),
        StreamOutcome::NotRead(error) => return Err(TnefReadError::Io(IoFailure::Container(error))),
        StreamOutcome::Read(bytes) => bytes,
    };
    let width: usize = match prop_type {
        PropType::MultipleBinary => 8,
        _ => 4,
    };
    if lengths.len() % width != 0 {
        return Ok(None);
    }
    let elements = read_element_streams(file, prefix, tag, type_code, lengths.len() / width)?;
    Ok(decode_multi_value(prop_type, elements))
}

/// Reads the record at the reader's position in the property stream of
/// the storage at `prefix`. A record whose value cannot be had yields no
/// property.
pub fn read_record(file: &mut Container, prefix: &str, reader: &mut BinaryReader<'_>) -> (r: Result<
    Option<Property>,
    TnefReadError,
>)
    ensures
        container_streams(*final(file)) == container_streams(*old(file)),
        match r {
            Ok(None) => spec_record(container_streams(*old(file)), prefix@, old(reader)@)
                == Outcome::<(Option<PropertyView>, Seq<u8>)>::Value((None, final(reader)@)),
            Ok(Some(property)) => spec_record(container_streams(*old(file)), prefix@, old(reader)@)
                == Outcome::Value((Some(property@), final(reader)@)) && property@.well_formed(),
            Err(e) => spec_record(container_streams(*old(file)), prefix@, old(reader)@) == failure::<
                (Option<PropertyView>, Seq<u8>),
            >(e@),
        },
        r is Ok ==> final(reader)@.len() + 16 == old(reader)@.len(),
{
    reveal(spec_record);
    let type_code = next_u16(reader)?;
    let tag = next_u16(reader)?;
    let flags = next_u32(reader)?;
    proof {
        PropType::lemma_code_round_trip(type_code);
    }
    let property_type = PropType::from_base_type(type_code);
    let value = match storage(property_type) {
        Storage::Unsupported => {
            return Err(TnefReadError::InvalidPropertyType { property_type: type_code });
        },
        Storage::Inline => {
            let field = next_bytes(reader, 8)?;
            Some(
                decode_inline(
                    property_type,
                    &[field[0], field[1], field[2], field[3], field[4], field[5], field[6], field[7]],
                )?,
            )
        },
        Storage::SingleStream => {
            let _length = next_u32(reader)?;
            let _reserved = next_u32(reader)?;
            read_single_stream(file, prefix, tag, type_code)?
        },
        Storage::MultiStream => {
            let _length = next_u32(reader)?;
            let _reserved = next_u32(reader)?;
            read_multi_stream(file, prefix, tag, type_code)?
        },
    };
    match value {
        None => Ok(None),
        Some(value) => Ok(
            Some(Property { property_type, tag: PropTag::from_base_type(tag), flags, value }),
        ),
    }
}

/// Reads the property stream of the storage at `path_prefix`: a header of
/// `header_length` bytes, and records to the end of the stream.
pub fn read_properties(file: &mut Container, path_prefix: &str, header_length: usize) -> (r: Result<
    (Vec<u8>, Vec<Property>),
    TnefReadError,
>)
    ensures
        container_streams(*final(file)) == container_streams(*old(file)),
        match r {
            Ok((header, properties)) => {
                &&& spec_directory(container_streams(*old(file)), path_prefix@, header_length as nat)
                    == Outcome::Value((header@, property_views(properties@)))
                &&& header@.len() == header_length
                &&& all_well_formed(property_views(properties@))
            },
            Err(e) => spec_directory(container_streams(*old(file)), path_prefix@, header_length as nat)
                == failure::<(Seq<u8>, Seq<PropertyView>)>(e@),
        },
{
    let ghost streams = container_streams(*file);
    let path = make_properties_path(path_prefix);
    let bytes = match read_stream(file, path.as_str()) {
        StreamOutcome::NotOpened(error) => return Err(TnefReadError::Io(IoFailure::Container(error))),
        StreamOutcome::NotRead(error) => return Err(TnefReadError::Io(IoFailure::Container(error))),
        StreamOutcome::Read(bytes) => bytes,
    };
    let mut reader = BinaryReader::new(bytes.as_slice());
    let header = next_bytes(&mut reader, header_length)?;
    let ghost body = reader@;
    let mut properties: Vec<Property> = Vec::new();
    while reader.remaining() > 0
        invariant
            streams == container_streams(*old(file)),
            container_streams(*file) == streams,
            streams.contains_key(properties_path(path_prefix@)),
            streams[properties_path(path_prefix@)] == Some(bytes@),
            take_bytes(bytes@, header_length as nat) == Some((header@, body)),
            spec_records(streams, path_prefix@, body) == match spec_records(
                streams,
                path_prefix@,
                reader@,
            ) {
                Outcome::Unreadable => Outcome::Unreadable,
                Outcome::Failed(e) => Outcome::Failed(e),
                Outcome::Value(more) => Outcome::Value(property_views(properties@) + more),
            },
            all_well_formed(property_views(properties@)),
        decreases reader@.len(),
    {
        let ghost before = property_views(properties@);
        match read_record(file, path_prefix, &mut reader)? {
            None => {},
            Some(property) => {
                properties.push(property);
                proof {
                    assert(property_views(properties@) =~= before.push(property@));
                    lemma_push_well_formed(before, property@);
                    match spec_records(streams, path_prefix@, reader@) {
                        Outcome::Value(more) => {
                            assert(before + (seq![property@] + more) =~= property_views(properties@)
                                + more);
                        },
                        _ => {},
                    }
                }
            },
        }
    }
    proof {
        assert(property_views(properties@) + Seq::<PropertyView>::empty() =~= property_views(
            properties@,
        ));
    }
    Ok((header, properties))
}

/// Reads the message that the compound file in `data` holds.
pub fn read_cfb_msg(data: &[u8]) -> (r: Result<Msg, TnefReadError>)
    ensures
        match r {
            Ok(msg) => spec_cfb_msg(data@) == Outcome::Value(msg@) && msg@.well_formed(),
            Err(e) => spec_cfb_msg(data@) == failure::<MsgView>(e@),
        },
{
    let bytes = vstd::slice::slice_to_vec(data);
    let mut file = match open_container(bytes) {
        Ok(file) => file,
        Err(error) => return Err(TnefReadError::Io(IoFailure::Container(error))),
    };
    let ghost streams = container_streams(file);
    proof {
        reveal_strlit("");
        assert(""@ =~= Seq::<char>::empty());
    }
    let (header, properties) = read_properties(&mut file, "", ROOT_HEADER_LENGTH)?;
    let mut header_reader = BinaryReader::new(header.as_slice());
    let _next_ids = next_bytes(&mut header_reader, 16)?;
    let recipient_count = next_u32(&mut header_reader)?;
    let attachment_count = next_u32(&mut header_reader)?;
    proof {
        assert(header@.skip(16).skip(4) =~= header@.skip(20));
    }

    let mut recipients: Vec<Recipient> = Vec::new();
    let mut index: u32 = 0;
    assert(recipient_views(recipients@) + Seq::<Seq<PropertyView>>::empty()
        =~= recipient_views(recipients@));
    while index < recipient_count
        invariant
            index <= recipient_count,
            container_streams(file) == streams,
            container_of(data@) == Some(streams),
            spec_directory(streams, Seq::empty(), ROOT_HEADER_LENGTH as nat) == Outcome::Value(
                (header@, property_views(properties@)),
            ),
            recipient_count == declared_recipients(header@),
            spec_items(streams, true, 0, recipient_count as nat) == match spec_items(
                streams,
                true,
                index as nat,
                recipient_count as nat,
            ) {
                Outcome::Unreadable => Outcome::Unreadable,
                Outcome::Failed(e) => Outcome::Failed(e),
                Outcome::Value(more) => Outcome::Value(
                    recipient_views(recipients@) + more,
                ),
            },
            all_well_formed(property_views(properties@)),
            lists_well_formed(recipient_views(recipients@)),
        decreases recipient_count - index,
    {
        let ghost before = recipient_views(recipients@);
        let prefix = make_recipient_prefix(index);
        let (_, item_properties) = read_properties(&mut file, prefix.as_str(), ITEM_HEADER_LENGTH)?;
        let recipient = Recipient { properties: item_properties };
        recipients.push(recipient);
        index = index + 1;
        proof {
            let now = recipient_views(recipients@);
            assert(now =~= before.push(recipient@));
            lemma_push_list_well_formed(before, recipient@);
            match spec_items(streams, true, index as nat, recipient_count as nat) {
                Outcome::Value(more) => {
                    assert(before + (seq![recipient@] + more) =~= now + more);
                },
                _ => {},
            }
        }
    }

    let mut attachments: Vec<Attachment> = Vec::new();
    let mut index: u32 = 0;
    assert(attachment_views(attachments@) + Seq::<Seq<PropertyView>>::empty()
        =~= attachment_views(attachments@));
    while index < attachment_count
        invariant
            index <= attachment_count,
            container_streams(file) == streams,
            container_of(data@) == Some(streams),
            spec_directory(streams, Seq::empty(), ROOT_HEADER_LENGTH as nat) == Outcome::Value(
                (header@, property_views(properties@)),
            ),
            recipient_count == declared_recipients(header@),
            attachment_count == declared_attachments(header@),
            spec_items(streams, true, 0, recipient_count as nat) == Outcome::Value(
                recipient_views(recipients@),
            ),
            spec_items(streams, false, 0, attachment_count as nat) == match spec_items(
                streams,
                false,
                index as nat,
                attachment_count as nat,
            ) {
                Outcome::Unreadable => Outcome::Unreadable,
                Outcome::Failed(e) => Outcome::Failed(e),
                Outcome::Value(more) => Outcome::Value(
                    attachment_views(attachments@) + more,
                ),
            },
            all_well_formed(property_views(properties@)),
            lists_well_formed(recipient_views(recipients@)),
            lists_well_formed(attachment_views(attachments@)),
        decreases attachment_count - index,
    {
        let ghost before = attachment_views(attachments@);
        let prefix = make_attachment_prefix(index);
        let (_, item_properties) = read_properties(&mut file, prefix.as_str(), ITEM_HEADER_LENGTH)?;
        let attachment = Attachment { properties: item_properties };
        attachments.push(attachment);
        index = index + 1;
        proof {
            let now = attachment_views(attachments@);
            assert(now =~= before.push(attachment@));
            lemma_push_list_well_formed(before, attachment@);
            match spec_items(streams, false, index as nat, attachment_count as nat) {
                Outcome::Value(more) => {
                    assert(before + (seq![attachment@] + more) =~= now + more);
                },
                _ => {},
            }
        }
    }
    proof {
        assert(recipient_views(recipients@) + Seq::<Seq<PropertyView>>::empty()
            =~= recipient_views(recipients@));
        assert(attachment_views(attachments@) + Seq::<
            Seq<PropertyView>,
        >::empty() =~= attachment_views(attachments@));
    }
    Ok(Msg { properties, recipients, attachments })
}

} // verus!
