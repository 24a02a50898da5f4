//! The front end: tells a TNEF stream from a compound file by its first
//! four bytes, and reads the property lists of a TNEF stream in the
//! encoding that its attributes set.

use vstd::prelude::*;
use crate::binread::{le16, take_u32_le, BinaryReader};
use crate::cfb_msg::{failure, read_cfb_msg, spec_cfb_msg, Msg, MsgView, Outcome, CFB_SIGNATURE_4BYTES};
use crate::error::{end_of_input, TnefReadError, TnefReadErrorView};
use crate::grammar::next_u32;
use crate::property::{
    decode_properties, property_views, spec_properties, Property, PropertyView,
};
use crate::text::{codepage_known, TextEncoding, CODEPAGE_UTF8, MAX_TEXT_LENGTH};
use crate::tnef::{
    read_tnef, spec_tnef, TnefAttribute, TnefAttributeView, TnefFile, TnefFileView, TNEF_SIGNATURE,
};
use crate::tnef_enums::TnefAttributeId;

verus! {

/// The container that holds a message.
#[derive(Clone, Copy, Debug, PartialEq, Eq)]
pub enum MessageFormat {
    /// A TNEF stream.
    Tnef,
    /// A compound file.
    CompoundFile,
}

/// The container that `s` starts like: told by its first four bytes, read
/// as a little-endian number.
pub open spec fn spec_format(s: Seq<u8>) -> Result<MessageFormat, TnefReadErrorView> {
    match take_u32_le(s) {
        None => Err(end_of_input()),
        Some((magic, _)) => if magic == TNEF_SIGNATURE {
            Ok(MessageFormat::Tnef)
        } else if magic == CFB_SIGNATURE_4BYTES {
            Ok(MessageFormat::CompoundFile)
        } else {
            Err(TnefReadErrorView::Signature { expected: TNEF_SIGNATURE, obtained: magic })
        },
    }
}

/// Tells which container `data` starts like.
pub fn detect_format(data: &[u8]) -> (r: Result<MessageFormat, TnefReadError>)
    ensures
        match r {
            Ok(format) => spec_format(data@) == Ok::<MessageFormat, TnefReadErrorView>(format),
            Err(e) => spec_format(data@) == Err::<MessageFormat, TnefReadErrorView>(e@)
                && !e@.from_container(),
        },
{
    let mut reader = BinaryReader::new(data);
    let magic = next_u32(&mut reader)?;
    if magic == TNEF_SIGNATURE {
        Ok(MessageFormat::Tnef)
    } else if magic == CFB_SIGNATURE_4BYTES {
        Ok(MessageFormat::CompoundFile)
    } else {
        Err(TnefReadError::Signature { expected: TNEF_SIGNATURE, obtained: magic })
    }
}

/// A message in either container.
#[derive(Clone, Debug, PartialEq)]
pub enum Message {
    Tnef(TnefFile),
    CompoundFile(Msg),
}

/// A message as contracts speak of it.
pub enum MessageView {
    Tnef(TnefFileView),
    CompoundFile(MsgView),
}

impl View for Message {
    type V = MessageView;

    open spec fn view(&self) -> MessageView {
        match self {
            Self::Tnef(file) => MessageView::Tnef(file@),
            Self::CompoundFile(msg) => MessageView::CompoundFile(msg@),
        }
    }
}

/// The message that `s` holds, read from its start by the reader of the
/// container that `s` starts like.
pub open spec fn spec_message(s: Seq<u8>) -> Outcome<MessageView> {
    match spec_format(s) {
        Err(e) => Outcome::Failed(e),
        Ok(MessageFormat::Tnef) => match spec_tnef(s) {
            Err(e) => Outcome::Failed(e),
            Ok(file) => Outcome::Value(MessageView::Tnef(file)),
        },
        Ok(MessageFormat::CompoundFile) => match spec_cfb_msg(s) {
            Outcome::Unreadable => Outcome::Unreadable,
            Outcome::Failed(e) => Outcome::Failed(e),
            Outcome::Value(msg) => Outcome::Value(MessageView::CompoundFile(msg)),
        },
    }
}

/// Reads the message that `data` holds, whichever container it lies in.
pub fn read_message(data: &[u8]) -> (r: Result<Message, TnefReadError>)
    ensures
        match r {
            Ok(message) => spec_message(data@) == Outcome::Value(message@),
            Err(e) => spec_message(data@) == failure::<MessageView>(e@),
        },
{
    match detect_format(data)? {
        MessageFormat::Tnef => Ok(Message::Tnef(read_tnef(data)?)),
        MessageFormat::CompoundFile => Ok(Message::CompoundFile(read_cfb_msg(data)?)),
    }
}

/// What the payload of a TNEF attribute holds.
#[derive(Debug)]
pub enum AttributeContent {
    /// The property list of the message or of an attachment.
    Properties(Vec<Property>),
    /// A property list that could not be decoded.
    Undecodable(TnefReadError),
    /// Bytes that are used as they are.
    Opaque,
}

/// The content of an attribute as contracts speak of it.
pub enum AttributeContentView {
    Properties(Seq<PropertyView>),
    Undecodable(TnefReadErrorView),
    Opaque,
}

impl View for AttributeContent {
    type V = AttributeContentView;

    open spec fn view(&self) -> AttributeContentView {
        match self {
            Self::Properties(properties) => AttributeContentView::Properties(
                property_views(properties@),
            ),
            Self::Undecodable(error) => AttributeContentView::Undecodable(error@),
            Self::Opaque => AttributeContentView::Opaque,
        }
    }
}

/// Whether the attribute names the code page of the 8-bit text that
/// follows it. Identifiers are told apart by their codes.
pub open spec fn names_code_page(attribute: TnefAttributeView) -> bool {
    attribute.id.spec_to_base_type() == TnefAttributeId::OemCodepage.spec_to_base_type()
        && attribute.data.len() >= 2
}

/// Whether the payload of the attribute is a property list.
pub open spec fn holds_properties(attribute: TnefAttributeView) -> bool {
    attribute.id.spec_to_base_type() == TnefAttributeId::MsgProps.spec_to_base_type()
        || attribute.id.spec_to_base_type() == TnefAttributeId::Attachment.spec_to_base_type()
}

/// The code page in force after an attribute, given the one before it: an
/// attribute that names a code page with a decoder switches to it.
pub open spec fn spec_next_code_page(code_page: u16, attribute: TnefAttributeView) -> u16 {
    if names_code_page(attribute) && codepage_known(le16(attribute.data) as u16) {
        le16(attribute.data) as u16
    } else {
        code_page
    }
}

/// The code page in force at the attribute `index`: UTF-8 at the start.
pub open spec fn spec_code_page_at(attributes: Seq<TnefAttributeView>, index: nat) -> u16
    decreases index,
{
    if index == 0 {
        CODEPAGE_UTF8
    } else {
        spec_next_code_page(
            spec_code_page_at(attributes, (index - 1) as nat),
            attributes[index - 1],
        )
    }
}

/// What the payload of an attribute holds, with 8-bit text read in the
/// code page `code_page`.
pub open spec fn spec_content(code_page: u16, attribute: TnefAttributeView) -> AttributeContentView {
    if holds_properties(attribute) {
        match spec_properties(code_page, attribute.data) {
            Ok((properties, _)) => AttributeContentView::Properties(properties),
            Err(e) => AttributeContentView::Undecodable(e),
        }
    } else {
        AttributeContentView::Opaque
    }
}

/// The encoding in force after `attribute`, given the one before it.
pub fn next_encoding(encoding: TextEncoding, attribute: &TnefAttribute) -> (next: TextEncoding)
    ensures
        next.spec_code_page() == spec_next_code_page(encoding.spec_code_page(), attribute@),
{
    if attribute.id == TnefAttributeId::OemCodepage && attribute.data.len() >= 2 {
        let code_page: u16 = attribute.data[0] as u16 + 0x100 * (attribute.data[1] as u16);
        match TextEncoding::from_codepage(code_page) {
            Some(named) => named,
            None => encoding,
        }
    } else {
        encoding
    }
}

/// Decodes what the payload of `attribute` holds, reading 8-bit text in
/// `encoding`.
pub fn decode_attribute(attribute: &TnefAttribute, encoding: TextEncoding) -> (content:
    AttributeContent)
    requires
        attribute.data@.len() <= MAX_TEXT_LENGTH,
    ensures
        content@ == spec_content(encoding.spec_code_page(), attribute@),
{
    if attribute.id == TnefAttributeId::MsgProps || attribute.id == TnefAttributeId::Attachment {
        let mut reader = BinaryReader::new(attribute.data.as_slice());
        match decode_properties(&mut reader, encoding) {
            Ok(properties) => AttributeContent::Properties(properties),
            Err(error) => AttributeContent::Undecodable(error),
        }
    } else {
        AttributeContent::Opaque
    }
}

/// Decodes what the attributes of a TNEF stream hold, each in the encoding
/// that the attributes before it set.
pub fn decode_attributes(file: &TnefFile) -> (contents: Vec<AttributeContent>)
    requires
        forall|i: int|
            0 <= i < file.attributes@.len() ==> (#[trigger] file.attributes@[i]).data@.len()
                <= MAX_TEXT_LENGTH,
    ensures
        contents@.len() == file.attributes@.len(),
        forall|i: int|
            0 <= i < contents@.len() ==> (#[trigger] contents@[i])@ == spec_content(
                spec_code_page_at(file@.attributes, i as nat),
                file@.attributes[i],
            ),
{
    let mut encoding = TextEncoding::utf8();
    let mut contents: Vec<AttributeContent> = Vec::new();
    let mut index: usize = 0;
    while index < file.attributes.len()
        invariant
            index <= file.attributes@.len(),
            contents@.len() == index,
            encoding.spec_code_page() == spec_code_page_at(file@.attributes, index as nat),
            forall|i: int|
                0 <= i < file.attributes@.len() ==> (#[trigger] file.attributes@[i]).data@.len()
                    <= MAX_TEXT_LENGTH,
            forall|i: int|
                0 <= i < contents@.len() ==> (#[trigger] contents@[i])@ == spec_content(
                    spec_code_page_at(file@.attributes, i as nat),
                    file@.attributes[i],
                ),
        decreases file.attributes@.len() - index,
    {
        let attribute = &file.attributes[index];
        let content = decode_attribute(attribute, encoding);
        contents.push(content);
        encoding = next_encoding(encoding, attribute);
        index = index + 1;
    }
    contents
}

} // verus!
