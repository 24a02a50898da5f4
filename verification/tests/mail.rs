use msox::guid::Guid;
use msox::mail::{attribute_parts, property_part, property_parts, trim_trailing_nuls, MailPart};
use msox::message::{decode_attribute, AttributeContent};
use msox::prop_tag::PropTag;
use msox::prop_type::PropType;
use msox::prop_value::PropValue;
use msox::property::{PropId, Property};
use msox::text::TextEncoding;
use msox::tnef::TnefAttribute;
use msox::tnef_enums::{TnefAttributeId, TnefAttributeLevel};

fn property(tag: PropTag, value: PropValue) -> Property {
    Property { tag, property_type: value.prop_type(), id: None, value }
}

#[test]
fn trailing_nuls_are_trimmed_and_no_others() {
    assert_eq!(trim_trailing_nuls("From: a\r\n\0"), "From: a\r\n");
    assert_eq!(trim_trailing_nuls("a\0b\0\0\0"), "a\0b");
    assert_eq!(trim_trailing_nuls("\0\0"), "");
    assert_eq!(trim_trailing_nuls(""), "");
    assert_eq!(trim_trailing_nuls("\0x"), "\0x");
    assert_eq!(trim_trailing_nuls("gr\u{fc}n \u{1f600}\0"), "gr\u{fc}n \u{1f600}");
}

#[test]
fn attachment_object_yields_the_bytes_behind_its_header() {
    let mut object = vec![0xAA; 16];
    object.extend_from_slice(b"data");
    assert_eq!(
        property_part(&property(PropTag::TagAttachDataBinary, PropValue::Object(object))),
        Some(MailPart::Attachment(b"data".to_vec()))
    );
    assert_eq!(
        property_part(&property(PropTag::TagAttachDataBinary, PropValue::Object(vec![1; 16]))),
        Some(MailPart::Attachment(vec![]))
    );
    assert_eq!(
        property_part(&property(PropTag::TagAttachDataBinary, PropValue::Object(vec![1; 15]))),
        Some(MailPart::TruncatedObject { length: 15 })
    );
    assert_eq!(
        property_part(&property(PropTag::TagAttachDataBinary, PropValue::Object(vec![]))),
        Some(MailPart::TruncatedObject { length: 0 })
    );
    assert_eq!(
        property_part(&property(PropTag::TagAttachDataBinary, PropValue::Binary(vec![1; 20]))),
        None
    );
    assert_eq!(
        property_part(&property(PropTag::Other(0x3701), PropValue::Object(vec![2; 17]))),
        Some(MailPart::Attachment(vec![2]))
    );
}

#[test]
fn headers_and_body_are_taken_from_their_tags_and_types_only() {
    assert_eq!(
        property_part(&property(
            PropTag::TagTransportMessageHeaders,
            PropValue::String8("Subject: x\r\n\0\0".to_string())
        )),
        Some(MailPart::Headers("Subject: x\r\n".to_string()))
    );
    assert_eq!(
        property_part(&property(
            PropTag::TagTransportMessageHeaders,
            PropValue::String("Subject: x".to_string())
        )),
        None
    );
    assert_eq!(
        property_part(&property(PropTag::TagBodyHtml, PropValue::Binary(b"<p>\0".to_vec()))),
        Some(MailPart::Body(b"<p>\0".to_vec()))
    );
    assert_eq!(
        property_part(&property(PropTag::TagBodyHtml, PropValue::String8("<p>".to_string()))),
        None
    );
    assert_eq!(
        property_part(&property(PropTag::TagBody, PropValue::Binary(b"<p>".to_vec()))),
        None
    );
    assert_eq!(property_part(&property(PropTag::TagSubject, PropValue::Null)), None);
    let named = Property {
        tag: PropTag::Other(0x8000),
        property_type: PropType::Binary,
        id: Some((Guid::default(), PropId::Number(0x1013))),
        value: PropValue::Binary(vec![1]),
    };
    assert_eq!(property_part(&named), None);
}

#[test]
fn parts_keep_the_order_of_the_properties() {
    let properties = vec![
        property(PropTag::TagBodyHtml, PropValue::Binary(b"one".to_vec())),
        property(PropTag::TagSubject, PropValue::String("skipped".to_string())),
        property(PropTag::TagTransportMessageHeaders, PropValue::String8("h\0".to_string())),
        property(PropTag::TagAttachDataBinary, PropValue::Object(vec![0; 18])),
        property(PropTag::TagBodyHtml, PropValue::Binary(b"two".to_vec())),
        property(PropTag::TagAttachDataBinary, PropValue::Object(vec![0; 3])),
    ];
    assert_eq!(
        property_parts(&properties),
        vec![
            MailPart::Body(b"one".to_vec()),
            MailPart::Headers("h".to_string()),
            MailPart::Attachment(vec![0, 0]),
            MailPart::Body(b"two".to_vec()),
            MailPart::TruncatedObject { length: 3 },
        ]
    );
    assert_eq!(property_parts(&vec![]), vec![]);
}

#[test]
fn attribute_parts_by_the_content_of_the_attribute() {
    let raw = TnefAttribute {
        level: TnefAttributeLevel::Attachment,
        id: TnefAttributeId::AttachData,
        data: vec![1, 2, 3],
        checksum: 6,
    };
    assert_eq!(
        attribute_parts(&raw, &decode_attribute(&raw, TextEncoding::utf8())),
        vec![MailPart::Attachment(vec![1, 2, 3])]
    );
    let title = TnefAttribute {
        level: TnefAttributeLevel::Attachment,
        id: TnefAttributeId::AttachTitle,
        data: b"a.txt\0".to_vec(),
        checksum: 0,
    };
    assert_eq!(attribute_parts(&title, &AttributeContent::Opaque), vec![]);
    let mut list = vec![2, 0, 0, 0];
    list.extend_from_slice(&[0x02, 0x01, 0x13, 0x10, 1, 0, 0, 0, 4, 0, 0, 0, b'b', b'o', b'd', b'y']);
    list.extend_from_slice(&[0x1E, 0x00, 0x7D, 0x00, 1, 0, 0, 0, 3, 0, 0, 0, b'h', 0, 0, 0]);
    let props = TnefAttribute {
        level: TnefAttributeLevel::Message,
        id: TnefAttributeId::MsgProps,
        data: list,
        checksum: 0,
    };
    let content = decode_attribute(&props, TextEncoding::utf8());
    assert_eq!(
        attribute_parts(&props, &content),
        vec![MailPart::Body(b"body".to_vec()), MailPart::Headers("h".to_string())]
    );
    let broken = TnefAttribute {
        level: TnefAttributeLevel::Message,
        id: TnefAttributeId::MsgProps,
        data: vec![1, 0, 0],
        checksum: 0,
    };
    let content = decode_attribute(&broken, TextEncoding::utf8());
    assert!(matches!(content, AttributeContent::Undecodable(_)));
    assert_eq!(attribute_parts(&broken, &content), vec![]);
}
