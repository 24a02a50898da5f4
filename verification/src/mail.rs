//! The parts of a mail that the attributes of a TNEF stream carry: the
//! transport headers, the HTML body, and the data of attachments.

use vstd::prelude::*;
use vstd::slice::{slice_subrange, slice_to_vec};
use vstd::string::{StrSliceExecFns, StringExecFns};
use crate::message::{AttributeContent, AttributeContentView};
use crate::prop_tag::PropTag;
use crate::prop_value::{PropValue, PropValueView};
use crate::property::{property_views, Property, PropertyView};
use crate::tnef::{TnefAttribute, TnefAttributeView};
use crate::tnef_enums::TnefAttributeId;

verus! {

/// The number of bytes that precede the data in an attachment object.
pub const OBJECT_HEADER_LENGTH: usize = 16;

/// A part of a mail.
#[derive(Clone, Debug, PartialEq, Eq)]
pub enum MailPart {
    /// The transport headers, without the NUL characters that end them.
    Headers(String),
    /// The HTML body.
    Body(Vec<u8>),
    /// The data of an attachment.
    Attachment(Vec<u8>),
    /// An attachment object of `length` bytes, too short to hold data.
    TruncatedObject { length: usize },
}

/// A part of a mail as contracts speak of it.
pub enum MailPartView {
    Headers(Seq<char>),
    Body(Seq<u8>),
    Attachment(Seq<u8>),
    TruncatedObject { length: usize },
}

impl View for MailPart {
    type V = MailPartView;

    open spec fn view(&self) -> MailPartView {
        match self {
            Self::Headers(text) => MailPartView::Headers(text@),
            Self::Body(bytes) => MailPartView::Body(bytes@),
            Self::Attachment(bytes) => MailPartView::Attachment(bytes@),
            Self::TruncatedObject { length } => MailPartView::TruncatedObject { length: *length },
        }
    }
}

/// The views of the parts of a list.
pub open spec fn part_views(parts: Seq<MailPart>) -> Seq<MailPartView> {
    Seq::new(parts.len(), |i: int| parts[i]@)
}

/// `text` without the NUL characters at its end.
pub open spec fn spec_trimmed(text: Seq<char>) -> Seq<char>
    decreases text.len(),
{
    if text.len() > 0 && text.last() == '\0' {
        spec_trimmed(text.drop_last())
    } else {
        text
    }
}

/// The part of a mail that a property carries, if it carries one: the
/// data of an attachment object behind its header, the transport headers,
/// or the HTML body. Tags are told apart by their codes.
pub open spec fn spec_property_part(property: PropertyView) -> Option<MailPartView> {
    if property.tag.spec_to_base_type() == PropTag::TagAttachDataBinary.spec_to_base_type() {
        match property.value {
            PropValueView::Object(object) => Some(
                if object.len() >= OBJECT_HEADER_LENGTH {
                    MailPartView::Attachment(object.skip(OBJECT_HEADER_LENGTH as int))
                } else {
                    MailPartView::TruncatedObject { length: object.len() as usize }
                },
            ),
            _ => None,
        }
    } else if property.tag.spec_to_base_type()
        == PropTag::TagTransportMessageHeaders.spec_to_base_type() {
        match property.value {
            PropValueView::String8(text) => Some(MailPartView::Headers(spec_trimmed(text))),
            _ => None,
        }
    } else if property.tag.spec_to_base_type() == PropTag::TagBodyHtml.spec_to_base_type() {
        match property.value {
            PropValueView::Binary(bytes) => Some(MailPartView::Body(bytes)),
            _ => None,
        }
    } else {
        None
    }
}

/// The parts of a mail that the properties of a list carry, in the order
/// of the list.
pub open spec fn spec_property_parts(properties: Seq<PropertyView>) -> Seq<MailPartView>
    decreases properties.len(),
{
    if properties.len() == 0 {
        Seq::empty()
    } else {
        match spec_property_part(properties[0]) {
            None => spec_property_parts(properties.skip(1)),
            Some(part) => seq![part] + spec_property_parts(properties.skip(1)),
        }
    }
}

/// The parts of a mail that an attribute carries, given what its payload
/// holds: those of its properties, or its payload itself where the
/// attribute is the data of an attachment.
pub open spec fn spec_attribute_parts(
    attribute: TnefAttributeView,
    content: AttributeContentView,
) -> Seq<MailPartView> {
    match content {
        AttributeContentView::Properties(properties) => spec_property_parts(properties),
        AttributeContentView::Undecodable(_) => Seq::empty(),
        AttributeContentView::Opaque => if attribute.id.spec_to_base_type()
            == TnefAttributeId::AttachData.spec_to_base_type() {
            seq![MailPartView::Attachment(attribute.data)]
        } else {
            Seq::empty()
        },
    }
}

/// `text` without the NUL characters at its end.
pub fn trim_trailing_nuls(text: &str) -> (trimmed: String)
    ensures
        trimmed@ == spec_trimmed(text@),
{
    let mut end = text.unicode_len();
    assert(text@.take(end as int) =~= text@);
    while end > 0 && text.get_char(end - 1) == '\0'
        invariant
            end <= text@.len(),
            spec_trimmed(text@) == spec_trimmed(text@.take(end as int)),
        decreases end,
    {
        proof {
            assert(text@.take(end as int).drop_last() =~= text@.take(end - 1));
        }
        end = end - 1;
    }
    assert(text@.take(end as int) =~= text@.subrange(0, end as int));
    String::from_str(text.substring_char(0, end))
}

/// The part of a mail that `property` carries, if it carries one.
pub fn property_part(property: &Property) -> (r: Option<MailPart>)
    ensures
        match r {
            Some(part) => spec_property_part(property@) == Some(part@),
            None => spec_property_part(property@) is None,
        },
{
    if property.tag == PropTag::TagAttachDataBinary {
        match &property.value {
            PropValue::Object(object) => {
                if object.len() >= OBJECT_HEADER_LENGTH {
                    let data = slice_subrange(object.as_slice(), OBJECT_HEADER_LENGTH, object.len());
                    assert(data@ =~= object@.skip(OBJECT_HEADER_LENGTH as int));
                    Some(MailPart::Attachment(slice_to_vec(data)))
                } else {
                    Some(MailPart::TruncatedObject { length: object.len() })
                }
            },
            _ => None,
        }
    } else if property.tag == PropTag::TagTransportMessageHeaders {
        match &property.value {
            PropValue::String8(text) => Some(MailPart::Headers(trim_trailing_nuls(text.as_str()))),
            _ => None,
        }
    } else if property.tag == PropTag::TagBodyHtml {
        match &property.value {
            PropValue::Binary(bytes) => Some(MailPart::Body(slice_to_vec(bytes.as_slice()))),
            _ => None,
        }
    } else {
        None
    }
}

/// The parts of a mail that `properties` carry, in their order.
pub fn property_parts(properties: &Vec<Property>) -> (parts: Vec<MailPart>)
    ensures
        part_views(parts@) == spec_property_parts(property_views(properties@)),
{
    let ghost all = property_views(properties@);
    let mut parts: Vec<MailPart> = Vec::new();
    let mut index: usize = 0;
    assert(all.skip(0) =~= all);
    assert(part_views(parts@) + spec_property_parts(all) =~= spec_property_parts(all));
    while index < properties.len()
        invariant
            index <= properties.len(),
            all == property_views(properties@),
            spec_property_parts(all) == part_views(parts@) + spec_property_parts(
                all.skip(index as int),
            ),
        decreases properties.len() - index,
    {
        let ghost before = part_views(parts@);
        let ghost left = all.skip(index as int);
        proof {
            assert(left.skip(1) =~= all.skip(index + 1));
            assert(left[0] == properties@[index as int]@);
        }
        match property_part(&properties[index]) {
            None => {},
            Some(part) => {
                parts.push(part);
                proof {
                    assert(part_views(parts@) =~= before.push(part@));
                    assert(before + (seq![part@] + spec_property_parts(left.skip(1))) =~= part_views(
                        parts@,
                    ) + spec_property_parts(left.skip(1)));
                }
            },
        }
        index = index + 1;
    }
    proof {
        assert(all.skip(index as int) =~= Seq::<PropertyView>::empty());
        assert(part_views(parts@) + Seq::<MailPartView>::empty() =~= part_views(parts@));
    }
    parts
}

/// The parts of a mail that `attribute` carries, given what its payload
/// holds.
pub fn attribute_parts(attribute: &TnefAttribute, content: &AttributeContent) -> (parts: Vec<
    MailPart,
>)
    ensures
        part_views(parts@) == spec_attribute_parts(attribute@, content@),
{
    match content {
        AttributeContent::Properties(properties) => property_parts(properties),
        AttributeContent::Undecodable(_) => {
            let parts: Vec<MailPart> = Vec::new();
            assert(part_views(parts@) =~= Seq::<MailPartView>::empty());
            parts
        },
        AttributeContent::Opaque => {
            let mut parts: Vec<MailPart> = Vec::new();
            if attribute.id == TnefAttributeId::AttachData {
                let part = MailPart::Attachment(slice_to_vec(attribute.data.as_slice()));
                parts.push(part);
                assert(part_views(parts@) =~= seq![part@]);
            } else {
                assert(part_views(parts@) =~= Seq::<MailPartView>::empty());
            }
            parts
        },
    }
}

} // verus!
