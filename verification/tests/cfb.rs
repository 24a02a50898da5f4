use std::io::Write;

use msox::binread::{BinaryReader, IoFailure};
use msox::cfb_msg::{
    decode_inline, decode_multi_value, decode_packed_i32, decode_stream_value, decode_text16,
    decode_text8, decode_texts16, decode_texts8, make_attachment_prefix, make_element_path,
    make_properties_path, make_recipient_prefix, make_value_path, read_cfb_msg, read_properties,
    read_record, storage, Property, Storage, CFB_SIGNATURE, CFB_SIGNATURE_4BYTES,
};
use msox::error::TnefReadError;
use msox::guid::Guid;
use msox::prop_tag::PropTag;
use msox::prop_type::PropType;
use msox::prop_value::PropValue;

fn open(streams: &[(&str, Vec<u8>)]) -> cfb::CompoundFile<std::io::Cursor<Vec<u8>>> {
    cfb::CompoundFile::open(std::io::Cursor::new(container(streams))).unwrap()
}

fn container(streams: &[(&str, Vec<u8>)]) -> Vec<u8> {
    let mut file = cfb::CompoundFile::create(std::io::Cursor::new(Vec::new())).unwrap();
    for (path, bytes) in streams {
        if let Some(at) = path[1..].find('/') {
            let storage = &path[..at + 1];
            if !file.is_storage(storage) {
                file.create_storage(storage).unwrap();
            }
        }
        let mut stream = file.create_stream(path).unwrap();
        stream.write_all(bytes).unwrap();
    }
    file.flush().unwrap();
    file.into_inner().into_inner()
}

fn root_header(recipients: u32, attachments: u32) -> Vec<u8> {
    let mut header = vec![0u8; 8];
    header.extend_from_slice(&recipients.to_le_bytes());
    header.extend_from_slice(&attachments.to_le_bytes());
    header.extend_from_slice(&recipients.to_le_bytes());
    header.extend_from_slice(&attachments.to_le_bytes());
    header.extend_from_slice(&[0u8; 8]);
    header
}

fn record(type_code: u16, tag: u16, flags: u32, field: [u8; 8]) -> Vec<u8> {
    let mut bytes = type_code.to_le_bytes().to_vec();
    bytes.extend_from_slice(&tag.to_le_bytes());
    bytes.extend_from_slice(&flags.to_le_bytes());
    bytes.extend_from_slice(&field);
    bytes
}

fn root(records: &[Vec<u8>]) -> Vec<u8> {
    let mut bytes = root_header(0, 0);
    for r in records {
        bytes.extend_from_slice(r);
    }
    bytes
}

fn utf16(text: &str) -> Vec<u8> {
    text.encode_utf16().flat_map(|u| u.to_le_bytes()).collect()
}

fn message(streams: &[(&str, Vec<u8>)]) -> Vec<Property> {
    let msg = read_cfb_msg(&container(streams)).unwrap();
    for p in &msg.properties {
        assert_eq!(p.value.prop_type(), p.property_type);
    }
    msg.properties
}

#[test]
fn signature_constants_are_the_first_bytes_of_a_compound_file() {
    assert_eq!(CFB_SIGNATURE_4BYTES, u32::from_le_bytes([0xD0, 0xCF, 0x11, 0xE0]));
    assert_eq!(CFB_SIGNATURE, u64::from_le_bytes([0xD0, 0xCF, 0x11, 0xE0, 0xA1, 0xB1, 0x1A, 0xE1]));
    let bytes = container(&[]);
    assert_eq!(bytes[..8].to_vec(), CFB_SIGNATURE.to_le_bytes().to_vec());
}

#[test]
fn root_header_declares_the_recipients_and_attachments() {
    let bytes = container(&[
        ("/__properties_version1.0", root_header(2, 1)),
        ("/__recip_version1.0_#00000000/__properties_version1.0", vec![0; 8]),
        ("/__recip_version1.0_#00000001/__properties_version1.0", vec![0; 8]),
        ("/__attach_version1.0_#00000000/__properties_version1.0", vec![0; 8]),
    ]);
    let msg = read_cfb_msg(&bytes).unwrap();
    assert_eq!(msg.properties, vec![]);
    assert_eq!(msg.recipients.len(), 2);
    assert_eq!(msg.attachments.len(), 1);
    assert_eq!(msg.recipients[0].properties, vec![]);
    assert_eq!(msg.recipients[1].properties, vec![]);
    assert_eq!(msg.attachments[0].properties, vec![]);
}

#[test]
fn message_without_recipients_or_attachments() {
    let msg = read_cfb_msg(&container(&[("/__properties_version1.0", root_header(0, 0))])).unwrap();
    assert_eq!(msg.properties, vec![]);
    assert_eq!(msg.recipients.len(), 0);
    assert_eq!(msg.attachments.len(), 0);
}

#[test]
fn recipients_and_attachments_carry_their_own_properties() {
    let mut recipient = vec![0u8; 8];
    recipient.extend_from_slice(&record(0x0003, 0x0C15, 6, [1, 0, 0, 0, 0, 0, 0, 0]));
    let mut attachment = vec![0u8; 8];
    attachment.extend_from_slice(&record(0x0003, 0x3705, 2, [1, 0, 0, 0, 9, 9, 9, 9]));
    attachment.extend_from_slice(&record(0x001F, 0x3704, 2, [14, 0, 0, 0, 0, 0, 0, 0]));
    let bytes = container(&[
        ("/__properties_version1.0", root_header(1, 2)),
        ("/__recip_version1.0_#00000000/__properties_version1.0", recipient),
        ("/__attach_version1.0_#00000000/__properties_version1.0", vec![0; 8]),
        ("/__attach_version1.0_#00000001/__properties_version1.0", attachment),
        ("/__attach_version1.0_#00000001/__substg1.0_3704001F", utf16("a.txt")),
        ("/__attach_version1.0_#00000000/__substg1.0_3704001F", utf16("wrong")),
    ]);
    let msg = read_cfb_msg(&bytes).unwrap();
    assert_eq!(
        msg.recipients[0].properties,
        vec![Property {
            property_type: PropType::Integer32,
            tag: PropTag::TagRecipientType,
            flags: 6,
            value: PropValue::Integer32(1),
        }]
    );
    assert_eq!(msg.attachments[0].properties, vec![]);
    assert_eq!(
        msg.attachments[1].properties,
        vec![
            Property {
                property_type: PropType::Integer32,
                tag: PropTag::TagAttachMethod,
                flags: 2,
                value: PropValue::Integer32(1),
            },
            Property {
                property_type: PropType::String,
                tag: PropTag::TagAttachFilename,
                flags: 2,
                value: PropValue::String("a.txt".to_string()),
            },
        ]
    );
}

#[test]
fn missing_item_storage_fails_the_message() {
    let bytes = container(&[
        ("/__properties_version1.0", root_header(2, 0)),
        ("/__recip_version1.0_#00000000/__properties_version1.0", vec![0; 8]),
    ]);
    assert!(matches!(read_cfb_msg(&bytes), Err(TnefReadError::Io(IoFailure::Container(_)))));
    let bytes = container(&[("/__properties_version1.0", root_header(0, 1))]);
    assert!(matches!(read_cfb_msg(&bytes), Err(TnefReadError::Io(IoFailure::Container(_)))));
}

#[test]
fn input_that_is_no_compound_file_fails_in_the_container() {
    assert!(matches!(read_cfb_msg(&[]), Err(TnefReadError::Io(IoFailure::Container(_)))));
    assert!(matches!(
        read_cfb_msg(&[0xD0, 0xCF, 0x11, 0xE0, 0xA1, 0xB1, 0x1A, 0xE1]),
        Err(TnefReadError::Io(IoFailure::Container(_)))
    ));
    assert!(matches!(read_cfb_msg(&[0x78; 4096]), Err(TnefReadError::Io(IoFailure::Container(_)))));
    assert!(matches!(
        read_cfb_msg(&container(&[])),
        Err(TnefReadError::Io(IoFailure::Container(_)))
    ));
}

#[test]
fn header_that_is_too_short_is_an_unexpected_end() {
    let bytes = container(&[("/__properties_version1.0", vec![0; 31])]);
    assert!(matches!(read_cfb_msg(&bytes), Err(TnefReadError::Io(IoFailure::UnexpectedEof))));
    let bytes = container(&[
        ("/__properties_version1.0", root_header(1, 0)),
        ("/__recip_version1.0_#00000000/__properties_version1.0", vec![0; 7]),
    ]);
    assert!(matches!(read_cfb_msg(&bytes), Err(TnefReadError::Io(IoFailure::UnexpectedEof))));
}

#[test]
fn record_that_is_cut_short_is_an_unexpected_end() {
    let whole = record(0x0003, 0x0037, 0, [1, 2, 3, 4, 5, 6, 7, 8]);
    for cut in 1..16 {
        let mut stream = root_header(0, 0);
        stream.extend_from_slice(&whole[..cut]);
        let bytes = container(&[("/__properties_version1.0", stream)]);
        assert!(
            matches!(read_cfb_msg(&bytes), Err(TnefReadError::Io(IoFailure::UnexpectedEof))),
            "cut at {}",
            cut
        );
    }
}

#[test]
fn inline_values_use_the_low_bytes_of_the_field() {
    let field = [0xFE, 0xFF, 0xFF, 0xFF, 0x01, 0x00, 0x00, 0x80];
    let properties = message(&[(
        "/__properties_version1.0",
        root(&[
            record(0x0002, 0x0001, 1, field),
            record(0x0003, 0x0002, 2, field),
            record(0x0004, 0x0003, 3, field),
            record(0x0005, 0x0004, 4, field),
            record(0x0006, 0x0005, 5, field),
            record(0x0007, 0x0006, 6, field),
            record(0x000A, 0x0007, 7, field),
            record(0x000B, 0x0008, 8, [0x01, 0xFF, 0xFF, 0xFF, 0xFF, 0xFF, 0xFF, 0xFF]),
            record(0x0014, 0x0009, 9, field),
            record(0x0040, 0x000A, 10, field),
        ]),
    )]);
    let wide = i64::from_le_bytes(field);
    let values: Vec<PropValue> = properties.iter().map(|p| p.value.clone()).collect();
    assert_eq!(
        values,
        vec![
            PropValue::Integer16(-2),
            PropValue::Integer32(-2),
            PropValue::Floating32(0xFFFF_FFFE),
            PropValue::Floating64(wide as u64),
            PropValue::Currency(wide),
            PropValue::FloatingTime(wide as u64),
            PropValue::ErrorCode(0xFFFF_FFFE),
            PropValue::Boolean(true),
            PropValue::Integer64(wide),
            PropValue::Time(wide),
        ]
    );
    let flags: Vec<u32> = properties.iter().map(|p| p.flags).collect();
    assert_eq!(flags, vec![1, 2, 3, 4, 5, 6, 7, 8, 9, 10]);
    let tags: Vec<u16> = properties.iter().map(|p| p.tag.to_base_type()).collect();
    assert_eq!(tags, vec![1, 2, 3, 4, 5, 6, 7, 8, 9, 10]);
}

#[test]
fn inline_boolean_accepts_only_zero_and_one() {
    assert_eq!(
        decode_inline(PropType::Boolean, &[0, 1, 1, 1, 1, 1, 1, 1]).unwrap(),
        PropValue::Boolean(false)
    );
    assert_eq!(
        decode_inline(PropType::Boolean, &[1, 0, 0, 0, 0, 0, 0, 0]).unwrap(),
        PropValue::Boolean(true)
    );
    for byte in [2u8, 0x80, 0xFF] {
        match decode_inline(PropType::Boolean, &[byte, 0, 0, 0, 0, 0, 0, 0]) {
            Err(TnefReadError::InvalidBoolean { obtained }) => assert_eq!(obtained, byte),
            other => panic!("{:?}", other),
        }
    }
}

#[test]
fn inline_boolean_other_than_zero_or_one_fails_the_message() {
    let bytes = container(&[(
        "/__properties_version1.0",
        root(&[
            record(0x0003, 0x0E07, 0, [1, 0, 0, 0, 0, 0, 0, 0]),
            record(0x000B, 0x0E1B, 0, [2, 0, 0, 0, 0, 0, 0, 0]),
        ]),
    )]);
    assert!(matches!(
        read_cfb_msg(&bytes),
        Err(TnefReadError::InvalidBoolean { obtained: 2 })
    ));
    let mut file = open(&[(
        "/__properties_version1.0",
        root(&[record(0x000B, 0x0E1B, 0, [0x80, 0, 0, 0, 0, 0, 0, 0])]),
    )]);
    assert!(matches!(
        read_properties(&mut file, "", 32),
        Err(TnefReadError::InvalidBoolean { obtained: 0x80 })
    ));
    let mut reader = BinaryReader::new(&[0x0B, 0x00, 0x1B, 0x0E, 0, 0, 0, 0, 0xFF, 0, 0, 0, 0, 0, 0, 0]);
    assert!(matches!(
        read_record(&mut file, "", &mut reader),
        Err(TnefReadError::InvalidBoolean { obtained: 0xFF })
    ));
    let mut reader = BinaryReader::new(&[0x0B, 0x00, 0x1B, 0x0E, 0, 0, 0, 0, 0x02, 0, 0]);
    assert!(matches!(
        read_record(&mut file, "", &mut reader),
        Err(TnefReadError::Io(IoFailure::UnexpectedEof))
    ));
}

#[test]
fn inline_values_of_the_other_types() {
    match decode_inline(PropType::Floating64, &2.5f64.to_le_bytes()).unwrap() {
        PropValue::Floating64(bits) => assert_eq!(f64::from_bits(bits), 2.5),
        other => panic!("{:?}", other),
    }
    assert_eq!(
        decode_inline(PropType::ErrorCode, &[0x05, 0x40, 0x00, 0x80, 0xFF, 0xFF, 0xFF, 0xFF]).unwrap(),
        PropValue::ErrorCode(0x8000_4005)
    );
    for (prop_type, code) in [
        (PropType::String, 0x001Fu16),
        (PropType::Null, 0x0001),
        (PropType::MultipleInteger32, 0x1003),
        (PropType::Other(0x7777), 0x7777),
    ] {
        match decode_inline(prop_type, &[0; 8]) {
            Err(TnefReadError::InvalidPropertyType { property_type }) => {
                assert_eq!(property_type, code)
            },
            other => panic!("{:?}", other),
        }
    }
}

#[test]
fn void_and_unknown_types_are_refused_in_a_property_stream() {
    for type_code in [0x0000u16, 0x0001, 0x0008, 0x00FB, 0x2003, 0xFFFF] {
        let bytes = container(&[(
            "/__properties_version1.0",
            root(&[record(type_code, 0x0037, 0, [0; 8])]),
        )]);
        match read_cfb_msg(&bytes) {
            Err(TnefReadError::InvalidPropertyType { property_type }) => {
                assert_eq!(property_type, type_code)
            },
            other => panic!("{:?}", other),
        }
    }
}

#[test]
fn storage_classes_of_the_types() {
    assert_eq!(storage(PropType::Unspecified), Storage::Unsupported);
    assert_eq!(storage(PropType::Null), Storage::Unsupported);
    assert_eq!(storage(PropType::Other(0x7777)), Storage::Unsupported);
    assert_eq!(storage(PropType::Other(0x0003)), Storage::Inline);
    for t in [
        PropType::Integer16,
        PropType::Integer32,
        PropType::Floating32,
        PropType::Floating64,
        PropType::Boolean,
        PropType::Currency,
        PropType::FloatingTime,
        PropType::Time,
        PropType::Integer64,
        PropType::ErrorCode,
    ] {
        assert_eq!(storage(t), Storage::Inline);
    }
    for t in [
        PropType::String,
        PropType::String8,
        PropType::Binary,
        PropType::Guid,
        PropType::Object,
        PropType::MultipleInteger16,
        PropType::MultipleInteger32,
        PropType::MultipleFloating32,
        PropType::MultipleFloating64,
        PropType::MultipleCurrency,
        PropType::MultipleFloatingTime,
        PropType::MultipleTime,
        PropType::MultipleGuid,
        PropType::MultipleInteger64,
    ] {
        assert_eq!(storage(t), Storage::SingleStream);
    }
    for t in [PropType::MultipleBinary, PropType::MultipleString, PropType::MultipleString8] {
        assert_eq!(storage(t), Storage::MultiStream);
    }
}

#[test]
fn values_in_streams_of_their_own() {
    let properties = message(&[
        (
            "/__properties_version1.0",
            root(&[
                record(0x001F, 0x0037, 1, [12, 0, 0, 0, 0, 0, 0, 0]),
                record(0x001E, 0x1000, 2, [0; 8]),
                record(0x0102, 0x1009, 3, [0; 8]),
                record(0x0048, 0x0FF9, 4, [0; 8]),
                record(0x000D, 0x3701, 5, [0; 8]),
                record(0x1003, 0x8001, 6, [0; 8]),
            ]),
        ),
        ("/__substg1.0_0037001F", utf16("Gr\u{fc}\u{df}e")),
        ("/__substg1.0_1000001E", "z\u{e9}".as_bytes().to_vec()),
        ("/__substg1.0_10090102", vec![0xDE, 0xAD]),
        ("/__substg1.0_0FF90048", vec![0x10; 16]),
        ("/__substg1.0_3701000D", vec![7; 20]),
        ("/__substg1.0_80011003", vec![1, 0, 0, 0, 0xFF, 0xFF, 0xFF, 0xFF]),
    ]);
    assert_eq!(
        properties,
        vec![
            Property {
                property_type: PropType::String,
                tag: PropTag::TagSubject,
                flags: 1,
                value: PropValue::String("Gr\u{fc}\u{df}e".to_string()),
            },
            Property {
                property_type: PropType::String8,
                tag: PropTag::TagBody,
                flags: 2,
                value: PropValue::String8("z\u{e9}".to_string()),
            },
            Property {
                property_type: PropType::Binary,
                tag: PropTag::TagRtfCompressed,
                flags: 3,
                value: PropValue::Binary(vec![0xDE, 0xAD]),
            },
            Property {
                property_type: PropType::Guid,
                tag: PropTag::TagRecordKey,
                flags: 4,
                value: PropValue::Guid(Guid {
                    data1: 0x1010_1010,
                    data2: 0x1010,
                    data3: 0x1010,
                    data4: [0x10; 8],
                }),
            },
            Property {
                property_type: PropType::Object,
                tag: PropTag::TagAttachDataBinary,
                flags: 5,
                value: PropValue::Object(vec![7; 20]),
            },
            Property {
                property_type: PropType::MultipleInteger32,
                tag: PropTag::Other(0x8001),
                flags: 6,
                value: PropValue::MultipleInteger32(vec![1, -1]),
            },
        ]
    );
}

#[test]
fn property_whose_stream_is_missing_or_does_not_fit_is_skipped() {
    let properties = message(&[
        (
            "/__properties_version1.0",
            root(&[
                record(0x001F, 0x0037, 0, [0; 8]),
                record(0x001F, 0x0070, 0, [0; 8]),
                record(0x001F, 0x0E04, 0, [0; 8]),
                record(0x001E, 0x1000, 0, [0; 8]),
                record(0x0048, 0x0FF9, 0, [0; 8]),
                record(0x1002, 0x8001, 0, [0; 8]),
                record(0x1014, 0x8002, 0, [0; 8]),
                record(0x1048, 0x8003, 0, [0; 8]),
                record(0x101F, 0x8004, 0, [0; 8]),
                record(0x1102, 0x8005, 0, [0; 8]),
                record(0x101E, 0x8006, 0, [0; 8]),
                record(0x000B, 0x0E1B, 0, [1, 0, 0, 0, 0, 0, 0, 0]),
            ]),
        ),
        ("/__substg1.0_0070001F", vec![0x41, 0x00, 0x42]),
        ("/__substg1.0_0E04001F", vec![0x00, 0xD8]),
        ("/__substg1.0_1000001E", vec![0x61, 0xFF]),
        ("/__substg1.0_0FF90048", vec![0; 15]),
        ("/__substg1.0_80011002", vec![0; 3]),
        ("/__substg1.0_80021014", vec![0; 12]),
        ("/__substg1.0_80031048", vec![0; 17]),
        ("/__substg1.0_8004101F", vec![0; 6]),
        ("/__substg1.0_80051102", vec![0; 12]),
        ("/__substg1.0_8006101E", vec![0; 5]),
    ]);
    assert_eq!(
        properties,
        vec![Property {
            property_type: PropType::Boolean,
            tag: PropTag::TagHasAttachments,
            flags: 0,
            value: PropValue::Boolean(true),
        }]
    );
}

#[test]
fn packed_arrays_of_every_element_type() {
    let mut eight = Vec::new();
    for v in [1i64, -1] {
        eight.extend_from_slice(&v.to_le_bytes());
    }
    assert_eq!(
        decode_stream_value(PropType::MultipleInteger16, vec![1, 0, 0xFF, 0xFF, 0, 0x80]),
        Some(PropValue::MultipleInteger16(vec![1, -1, i16::MIN]))
    );
    assert_eq!(
        decode_stream_value(PropType::MultipleFloating32, 1.5f32.to_le_bytes().to_vec()),
        Some(PropValue::MultipleFloating32(vec![1.5f32.to_bits()]))
    );
    assert_eq!(
        decode_stream_value(PropType::MultipleFloating64, eight.clone()),
        Some(PropValue::MultipleFloating64(vec![1, u64::MAX]))
    );
    assert_eq!(
        decode_stream_value(PropType::MultipleFloatingTime, eight.clone()),
        Some(PropValue::MultipleFloatingTime(vec![1, u64::MAX]))
    );
    assert_eq!(
        decode_stream_value(PropType::MultipleCurrency, eight.clone()),
        Some(PropValue::MultipleCurrency(vec![1, -1]))
    );
    assert_eq!(
        decode_stream_value(PropType::MultipleTime, eight.clone()),
        Some(PropValue::MultipleTime(vec![1, -1]))
    );
    assert_eq!(
        decode_stream_value(PropType::MultipleInteger64, eight.clone()),
        Some(PropValue::MultipleInteger64(vec![1, -1]))
    );
    assert_eq!(
        decode_stream_value(PropType::MultipleGuid, vec![0x33; 32]),
        Some(PropValue::MultipleGuid(vec![
            Guid {
                data1: 0x3333_3333,
                data2: 0x3333,
                data3: 0x3333,
                data4: [0x33; 8]
            };
            2
        ]))
    );
    assert_eq!(
        decode_stream_value(PropType::MultipleInteger32, vec![]),
        Some(PropValue::MultipleInteger32(vec![]))
    );
    assert_eq!(decode_stream_value(PropType::MultipleInteger32, vec![0; 7]), None);
    assert_eq!(decode_stream_value(PropType::Integer32, vec![0; 4]), None);
    assert_eq!(decode_stream_value(PropType::MultipleString, vec![]), None);
    assert_eq!(decode_packed_i32(&[2, 0, 0, 0]), Some(vec![2]));
    assert_eq!(decode_packed_i32(&[2, 0, 0]), None);
}

#[test]
fn texts_in_streams() {
    assert_eq!(decode_text16(&utf16("\u{1f600}x")), Some("\u{1f600}x".to_string()));
    assert_eq!(decode_text16(&[]), Some(String::new()));
    assert_eq!(decode_text16(&[0x41]), None);
    assert_eq!(decode_text16(&[0x00, 0xDC]), None);
    assert_eq!(decode_text8("\u{20ac}".as_bytes()), Some("\u{20ac}".to_string()));
    assert_eq!(decode_text8(&[0xE9]), None);
    assert_eq!(decode_text8(&[]), Some(String::new()));
    let elements = vec![utf16("a"), vec![1], utf16("bc"), vec![0x00, 0xD8], vec![]];
    assert_eq!(
        decode_texts16(&elements),
        vec!["a".to_string(), "bc".to_string(), String::new()]
    );
    let elements = vec![b"a".to_vec(), vec![0xFF], b"bc".to_vec()];
    assert_eq!(decode_texts8(&elements), vec!["a".to_string(), "bc".to_string()]);
    assert_eq!(
        decode_multi_value(PropType::MultipleBinary, vec![vec![1], vec![]]),
        Some(PropValue::MultipleBinary(vec![vec![1], vec![]]))
    );
    assert_eq!(
        decode_multi_value(PropType::MultipleString8, vec![b"x".to_vec(), vec![0x80]]),
        Some(PropValue::MultipleString8(vec!["x".to_string()]))
    );
    assert_eq!(decode_multi_value(PropType::Binary, vec![vec![1]]), None);
    assert_eq!(decode_multi_value(PropType::MultipleInteger16, vec![]), None);
}

#[test]
fn values_with_a_stream_for_each_element() {
    let properties = message(&[
        (
            "/__properties_version1.0",
            root(&[
                record(0x101F, 0x8001, 0, [0; 8]),
                record(0x1102, 0x8002, 0, [0; 8]),
                record(0x101E, 0x8003, 0, [0; 8]),
                record(0x101F, 0x8004, 0, [0; 8]),
            ]),
        ),
        ("/__substg1.0_8001101F", vec![0; 16]),
        ("/__substg1.0_8001101F-00000000", utf16("one")),
        ("/__substg1.0_8001101F-00000001", vec![0x41, 0x00, 0x42]),
        ("/__substg1.0_8001101F-00000003", utf16("four")),
        ("/__substg1.0_8001101F-00000004", utf16("beyond the count")),
        ("/__substg1.0_80021102", vec![0; 16]),
        ("/__substg1.0_80021102-00000000", vec![1, 2, 3]),
        ("/__substg1.0_80021102-00000001", vec![]),
        ("/__substg1.0_8003101E", vec![0; 12]),
        ("/__substg1.0_8003101E-00000000", b"a".to_vec()),
        ("/__substg1.0_8003101E-00000001", vec![0xC3]),
        ("/__substg1.0_8003101E-00000002", "\u{e9}".as_bytes().to_vec()),
        ("/__substg1.0_8004101F", vec![]),
    ]);
    let values: Vec<PropValue> = properties.iter().map(|p| p.value.clone()).collect();
    assert_eq!(
        values,
        vec![
            PropValue::MultipleString(vec!["one".to_string(), "four".to_string()]),
            PropValue::MultipleBinary(vec![vec![1, 2, 3], vec![]]),
            PropValue::MultipleString8(vec!["a".to_string(), "\u{e9}".to_string()]),
            PropValue::MultipleString(vec![]),
        ]
    );
}

#[test]
fn element_streams_beyond_the_tenth_are_named_in_hexadecimal() {
    let mut streams: Vec<(String, Vec<u8>)> = vec![
        ("/__properties_version1.0".to_string(), root(&[record(0x1102, 0x8001, 0, [0; 8])])),
        ("/__substg1.0_80011102".to_string(), vec![0; 8 * 12]),
    ];
    for i in 0..12u8 {
        streams.push((format!("/__substg1.0_80011102-{:08X}", i), vec![i]));
    }
    let borrowed: Vec<(&str, Vec<u8>)> = streams.iter().map(|(p, b)| (p.as_str(), b.clone())).collect();
    let properties = message(&borrowed);
    assert_eq!(
        properties[0].value,
        PropValue::MultipleBinary((0..12u8).map(|i| vec![i]).collect())
    );
}

#[test]
fn paths_of_the_streams() {
    assert_eq!(make_properties_path(""), "/__properties_version1.0");
    assert_eq!(
        make_properties_path("/__recip_version1.0_#00000000"),
        "/__recip_version1.0_#00000000/__properties_version1.0"
    );
    assert_eq!(make_value_path("", 0x0037, 0x001F), "/__substg1.0_0037001F");
    assert_eq!(make_value_path("/x", 0xFFFE, 0x1102), "/x/__substg1.0_FFFE1102");
    assert_eq!(make_value_path("", 0, 0), "/__substg1.0_00000000");
    assert_eq!(make_element_path("", 0x800A, 0x101F, 0), "/__substg1.0_800A101F-00000000");
    assert_eq!(make_element_path("", 0x800A, 0x101F, 0xABCDE), "/__substg1.0_800A101F-000ABCDE");
    assert_eq!(
        make_element_path("/p", 0x1, 0x2, 0xFFFF_FFFF),
        "/p/__substg1.0_00010002-FFFFFFFF"
    );
    assert_eq!(make_recipient_prefix(0), "/__recip_version1.0_#00000000");
    assert_eq!(make_recipient_prefix(0x1A), "/__recip_version1.0_#0000001A");
    assert_eq!(make_attachment_prefix(u32::MAX), "/__attach_version1.0_#FFFFFFFF");
    assert_eq!(make_attachment_prefix(16), "/__attach_version1.0_#00000010");
}

#[test]
fn read_properties_returns_the_header_and_the_properties() {
    let mut stream = vec![1u8, 2, 3, 4, 5, 6, 7, 8];
    stream.extend_from_slice(&record(0x000B, 0x0E1B, 0x0000_0006, [0; 8]));
    let mut file = open(&[("/__attach_version1.0_#00000000/__properties_version1.0", stream)]);
    let (header, properties) = read_properties(&mut file, "/__attach_version1.0_#00000000", 8).unwrap();
    assert_eq!(header, vec![1, 2, 3, 4, 5, 6, 7, 8]);
    assert_eq!(
        properties,
        vec![Property {
            property_type: PropType::Boolean,
            tag: PropTag::TagHasAttachments,
            flags: 6,
            value: PropValue::Boolean(false),
        }]
    );
    assert!(matches!(
        read_properties(&mut file, "", 32),
        Err(TnefReadError::Io(IoFailure::Container(_)))
    ));
    assert!(matches!(
        read_properties(&mut file, "/__attach_version1.0_#00000000", 25),
        Err(TnefReadError::Io(IoFailure::UnexpectedEof))
    ));
}

#[test]
fn read_record_takes_sixteen_bytes_whether_the_property_is_kept_or_skipped() {
    let mut file = open(&[("/__substg1.0_0037001F", utf16("x"))]);
    let mut bytes = record(0x001F, 0x0037, 0, [0; 8]);
    bytes.extend_from_slice(&record(0x001F, 0x0038, 0, [0; 8]));
    bytes.extend_from_slice(&[0xAA]);
    let mut reader = BinaryReader::new(&bytes);
    let kept = read_record(&mut file, "", &mut reader).unwrap();
    assert_eq!(kept.unwrap().value, PropValue::String("x".to_string()));
    assert_eq!(reader.remaining(), 17);
    let skipped = read_record(&mut file, "", &mut reader).unwrap();
    assert_eq!(skipped, None);
    assert_eq!(reader.remaining(), 1);
    assert!(matches!(
        read_record(&mut file, "", &mut reader),
        Err(TnefReadError::Io(IoFailure::UnexpectedEof))
    ));
}
