use msox::binread::{BinaryReader, IoFailure};
use msox::error::TnefReadError;
use msox::guid::Guid;
use msox::prop_tag::PropTag;
use msox::prop_type::PropType;
use msox::prop_value::PropValue;
use msox::property::{
    decode_properties, decode_property, decode_property_lists, decode_value, PropId, Property,
};
use msox::text::TextEncoding;

fn value(prop_type: PropType, bytes: &[u8]) -> (Result<PropValue, TnefReadError>, usize) {
    let mut reader = BinaryReader::new(bytes);
    let result = decode_value(prop_type, &mut reader, TextEncoding::utf8());
    (result, bytes.len() - reader.remaining())
}

fn decoded(prop_type: PropType, bytes: &[u8]) -> PropValue {
    let (result, used) = value(prop_type, bytes);
    let value = result.unwrap();
    assert_eq!(used, bytes.len(), "all bytes are used");
    assert_eq!(used % 4, 0, "a value takes a multiple of four bytes");
    assert_eq!(value.prop_type(), prop_type, "the value is of the type asked for");
    value
}

fn utf16(text: &str) -> Vec<u8> {
    text.encode_utf16().flat_map(|u| u.to_le_bytes()).collect()
}

fn counted(count: u32, elements: &[&[u8]]) -> Vec<u8> {
    let mut bytes = count.to_le_bytes().to_vec();
    for e in elements {
        bytes.extend_from_slice(&(e.len() as u32).to_le_bytes());
        bytes.extend_from_slice(e);
        bytes.resize(bytes.len() + (4 - e.len() % 4) % 4, 0);
    }
    bytes
}

#[test]
fn void_types_take_no_bytes() {
    assert_eq!(decoded(PropType::Unspecified, &[]), PropValue::Unspecified);
    assert_eq!(decoded(PropType::Null, &[]), PropValue::Null);
    let (result, used) = value(PropType::Null, &[1, 2, 3, 4]);
    assert_eq!(result.unwrap(), PropValue::Null);
    assert_eq!(used, 0);
}

#[test]
fn fixed_width_scalars() {
    assert_eq!(decoded(PropType::Integer16, &[0xFE, 0xFF, 0xAA, 0xBB]), PropValue::Integer16(-2));
    assert_eq!(decoded(PropType::Integer32, &[0x00, 0x00, 0x00, 0x80]), PropValue::Integer32(i32::MIN));
    assert_eq!(decoded(PropType::ErrorCode, &[0x05, 0x40, 0x00, 0x80]), PropValue::ErrorCode(0x8000_4005));
    assert_eq!(
        decoded(PropType::Integer64, &[1, 0, 0, 0, 0, 0, 0, 0x80]),
        PropValue::Integer64(i64::MIN + 1)
    );
    assert_eq!(
        decoded(PropType::Currency, &[0x10, 0x27, 0, 0, 0, 0, 0, 0]),
        PropValue::Currency(10_000)
    );
    assert_eq!(
        decoded(PropType::Time, &[0x00, 0x80, 0x3E, 0xD5, 0xDE, 0xB1, 0x9D, 0x01]),
        PropValue::Time(116_444_736_000_000_000)
    );
}

#[test]
fn floating_point_values_are_their_bit_patterns() {
    match decoded(PropType::Floating32, &1.5f32.to_le_bytes()) {
        PropValue::Floating32(bits) => assert_eq!(f32::from_bits(bits), 1.5),
        other => panic!("{:?}", other),
    }
    match decoded(PropType::Floating64, &(-0.25f64).to_le_bytes()) {
        PropValue::Floating64(bits) => assert_eq!(f64::from_bits(bits), -0.25),
        other => panic!("{:?}", other),
    }
    match decoded(PropType::FloatingTime, &36526.5f64.to_le_bytes()) {
        PropValue::FloatingTime(bits) => assert_eq!(f64::from_bits(bits), 36526.5),
        other => panic!("{:?}", other),
    }
    let mut bytes = 2u32.to_le_bytes().to_vec();
    bytes.extend_from_slice(&1.0f32.to_le_bytes());
    bytes.extend_from_slice(&(-2.0f32).to_le_bytes());
    match decoded(PropType::MultipleFloating32, &bytes) {
        PropValue::MultipleFloating32(bits) => {
            let values: Vec<f32> = bits.into_iter().map(f32::from_bits).collect();
            assert_eq!(values, vec![1.0, -2.0]);
        },
        other => panic!("{:?}", other),
    }
}

#[test]
fn boolean_is_one_byte_and_three_of_padding() {
    assert_eq!(decoded(PropType::Boolean, &[0, 0, 0, 0]), PropValue::Boolean(false));
    assert_eq!(decoded(PropType::Boolean, &[1, 0xFF, 0xFF, 0xFF]), PropValue::Boolean(true));
}

#[test]
fn boolean_other_than_zero_or_one_is_refused() {
    for byte in [2u8, 0x10, 0xFF] {
        let (result, _) = value(PropType::Boolean, &[byte, 0, 0, 0]);
        match result {
            Err(TnefReadError::InvalidBoolean { obtained }) => assert_eq!(obtained, byte),
            other => panic!("{:?}", other),
        }
    }
    let (result, _) = value(PropType::Boolean, &[2]);
    assert!(matches!(result, Err(TnefReadError::InvalidBoolean { obtained: 2 })));
    let (result, _) = value(PropType::Boolean, &[1, 0, 0]);
    assert!(matches!(result, Err(TnefReadError::Io(IoFailure::UnexpectedEof))));
}

#[test]
fn guid_value_is_sixteen_little_endian_bytes() {
    let bytes = [
        0x08, 0x20, 0x06, 0x00, 0x00, 0x00, 0x00, 0x00, 0xC0, 0x00, 0x00, 0x00, 0x00, 0x00, 0x00,
        0x46,
    ];
    assert_eq!(
        decoded(PropType::Guid, &bytes),
        PropValue::Guid(Guid {
            data1: 0x0006_2008,
            data2: 0,
            data3: 0,
            data4: [0xC0, 0, 0, 0, 0, 0, 0, 0x46],
        })
    );
    let (result, _) = value(PropType::Guid, &bytes[..15]);
    assert!(matches!(result, Err(TnefReadError::Io(IoFailure::UnexpectedEof))));
}

#[test]
fn object_and_binary_are_counted_byte_strings() {
    assert_eq!(
        decoded(PropType::Object, &counted(1, &[&[1, 2, 3, 4, 5]])),
        PropValue::Object(vec![1, 2, 3, 4, 5])
    );
    assert_eq!(decoded(PropType::Binary, &counted(1, &[&[]])), PropValue::Binary(vec![]));
    assert_eq!(
        decoded(PropType::Binary, &[1, 0, 0, 0, 3, 0, 0, 0, 0xAA, 0xBB, 0xCC, 0x00]),
        PropValue::Binary(vec![0xAA, 0xBB, 0xCC])
    );
    assert_eq!(
        decoded(PropType::MultipleBinary, &counted(3, &[&[1], &[], &[2, 3, 4, 5, 6, 7]])),
        PropValue::MultipleBinary(vec![vec![1], vec![], vec![2, 3, 4, 5, 6, 7]])
    );
    assert_eq!(decoded(PropType::MultipleBinary, &counted(0, &[])), PropValue::MultipleBinary(vec![]));
}

#[test]
fn single_valued_types_refuse_any_count_but_one() {
    for (prop_type, code) in [
        (PropType::Object, 0x000Du16),
        (PropType::Binary, 0x0102),
        (PropType::String8, 0x001E),
        (PropType::String, 0x001F),
    ] {
        for count in [0u32, 2, u32::MAX] {
            let (result, _) = value(prop_type, &counted(count, &[&[0, 0], &[0, 0]]));
            match result {
                Err(TnefReadError::MultipleValuesSingleType { prop_type: found, count: n }) => {
                    assert_eq!(found.to_base_type(), code);
                    assert_eq!(n, count);
                },
                other => panic!("{:?}", other),
            }
        }
    }
}

#[test]
fn string8_is_decoded_in_the_encoding_given() {
    assert_eq!(
        decoded(PropType::String8, &counted(1, &[b"caf\xC3\xA9\0"])),
        PropValue::String8("caf\u{e9}\0".to_string())
    );
    let latin = TextEncoding::from_codepage(1252).unwrap();
    let bytes = counted(1, &[b"caf\xE9 \x80"]);
    let mut reader = BinaryReader::new(&bytes);
    assert_eq!(
        decode_value(PropType::String8, &mut reader, latin).unwrap(),
        PropValue::String8("caf\u{e9} \u{20ac}".to_string())
    );
    assert_eq!(reader.remaining(), 0);
    let cyrillic = TextEncoding::from_codepage(1251).unwrap();
    let bytes = counted(2, &[b"\xCF\xF0\xE8\xE2\xE5\xF2", b"ok"]);
    let mut reader = BinaryReader::new(&bytes);
    assert_eq!(
        decode_value(PropType::MultipleString8, &mut reader, cyrillic).unwrap(),
        PropValue::MultipleString8(vec![
            "\u{41f}\u{440}\u{438}\u{432}\u{435}\u{442}".to_string(),
            "ok".to_string()
        ])
    );
}

#[test]
fn string8_replaces_malformed_bytes_and_drops_the_byte_order_mark() {
    assert_eq!(
        decoded(PropType::String8, &counted(1, &[b"a\xFFb"])),
        PropValue::String8("a\u{fffd}b".to_string())
    );
    assert_eq!(
        decoded(PropType::String8, &counted(1, &[b"\xEF\xBB\xBFhi"])),
        PropValue::String8("hi".to_string())
    );
}

#[test]
fn string_is_utf16_little_endian() {
    assert_eq!(
        decoded(PropType::String, &counted(1, &[&utf16("Gr\u{fc}\u{df}e \u{1f600}")])),
        PropValue::String("Gr\u{fc}\u{df}e \u{1f600}".to_string())
    );
    assert_eq!(decoded(PropType::String, &counted(1, &[&[]])), PropValue::String(String::new()));
    assert_eq!(
        decoded(PropType::String, &[1, 0, 0, 0, 2, 0, 0, 0, 0x41, 0x00, 0xEE, 0xEE]),
        PropValue::String("A".to_string())
    );
}

#[test]
fn string_with_an_odd_byte_count_is_refused() {
    let (result, _) = value(PropType::String, &[1, 0, 0, 0, 3, 0, 0, 0, 0x41, 0x00, 0x42, 0x00]);
    assert!(matches!(result, Err(TnefReadError::OddStringLength { byte_length: 3 })));
    let (result, _) = value(PropType::MultipleString, &[1, 0, 0, 0, 1, 0, 0, 0]);
    assert!(matches!(result, Err(TnefReadError::OddStringLength { byte_length: 1 })));
}

#[test]
fn string_with_a_lone_surrogate_is_refused_with_its_code_units() {
    let (result, _) = value(
        PropType::String,
        &[1, 0, 0, 0, 4, 0, 0, 0, 0x41, 0x00, 0x00, 0xD8],
    );
    match result {
        Err(TnefReadError::InvalidString { obtained }) => assert_eq!(obtained, vec![0x0041, 0xD800]),
        other => panic!("{:?}", other),
    }
    let (result, _) = value(PropType::String, &[1, 0, 0, 0, 2, 0, 0, 0, 0x00, 0xDC]);
    assert!(matches!(result, Err(TnefReadError::InvalidString { .. })));
}

#[test]
fn multiple_string_pads_each_element_from_its_own_start() {
    let bytes = [
        2, 0, 0, 0, // two elements
        2, 0, 0, 0, 0x41, 0x00, 0xFF, 0xFF, // "A" and two bytes of padding
        6, 0, 0, 0, 0x42, 0x00, 0x43, 0x00, 0x44, 0x00, 0xFF, 0xFF, // "BCD" and two of padding
    ];
    assert_eq!(
        decoded(PropType::MultipleString, &bytes),
        PropValue::MultipleString(vec!["A".to_string(), "BCD".to_string()])
    );
    let (result, _) = value(PropType::MultipleString, &bytes[..bytes.len() - 1]);
    assert!(matches!(result, Err(TnefReadError::Io(IoFailure::UnexpectedEof))));
}

#[test]
fn arrays_of_fixed_width_elements() {
    assert_eq!(
        decoded(PropType::MultipleInteger16, &[2, 0, 0, 0, 0x01, 0x00, 0xEE, 0xEE, 0xFF, 0xFF, 0, 0]),
        PropValue::MultipleInteger16(vec![1, -1])
    );
    assert_eq!(
        decoded(PropType::MultipleInteger32, &[2, 0, 0, 0, 7, 0, 0, 0, 0xF9, 0xFF, 0xFF, 0xFF]),
        PropValue::MultipleInteger32(vec![7, -7])
    );
    let mut bytes = 3u32.to_le_bytes().to_vec();
    for v in [1i64, -1, i64::MAX] {
        bytes.extend_from_slice(&v.to_le_bytes());
    }
    assert_eq!(
        decoded(PropType::MultipleInteger64, &bytes),
        PropValue::MultipleInteger64(vec![1, -1, i64::MAX])
    );
    assert_eq!(decoded(PropType::MultipleTime, &bytes), PropValue::MultipleTime(vec![1, -1, i64::MAX]));
    assert_eq!(
        decoded(PropType::MultipleCurrency, &bytes),
        PropValue::MultipleCurrency(vec![1, -1, i64::MAX])
    );
    match decoded(PropType::MultipleFloating64, &bytes) {
        PropValue::MultipleFloating64(bits) => assert_eq!(bits, vec![1, u64::MAX, i64::MAX as u64]),
        other => panic!("{:?}", other),
    }
    match decoded(PropType::MultipleFloatingTime, &bytes) {
        PropValue::MultipleFloatingTime(bits) => assert_eq!(bits.len(), 3),
        other => panic!("{:?}", other),
    }
    let mut bytes = 2u32.to_le_bytes().to_vec();
    bytes.extend_from_slice(&[0x11; 16]);
    bytes.extend_from_slice(&[0x22; 16]);
    assert_eq!(
        decoded(PropType::MultipleGuid, &bytes),
        PropValue::MultipleGuid(vec![
            Guid { data1: 0x1111_1111, data2: 0x1111, data3: 0x1111, data4: [0x11; 8] },
            Guid { data1: 0x2222_2222, data2: 0x2222, data3: 0x2222, data4: [0x22; 8] },
        ])
    );
}

#[test]
fn array_that_ends_early_is_an_unexpected_end() {
    let (result, _) = value(PropType::MultipleInteger32, &[2, 0, 0, 0, 7, 0, 0, 0]);
    assert!(matches!(result, Err(TnefReadError::Io(IoFailure::UnexpectedEof))));
    let (result, _) = value(PropType::MultipleInteger16, &[1, 0, 0, 0, 7, 0]);
    assert!(matches!(result, Err(TnefReadError::Io(IoFailure::UnexpectedEof))));
    let (result, _) = value(PropType::MultipleBinary, &[0xFF, 0xFF, 0xFF, 0xFF, 1, 0, 0, 0, 9, 0, 0, 0]);
    assert!(matches!(result, Err(TnefReadError::Io(IoFailure::UnexpectedEof))));
    let (result, _) = value(PropType::Binary, &[1, 0, 0, 0, 0xFF, 0xFF, 0xFF, 0xFF, 1, 2, 3]);
    assert!(matches!(result, Err(TnefReadError::Io(IoFailure::UnexpectedEof))));
}

#[test]
fn unknown_type_is_refused_with_its_code() {
    let (result, used) = value(PropType::Other(0x84E4), &[0u8; 128]);
    assert!(matches!(result, Err(TnefReadError::InvalidPropertyType { property_type: 0x84E4 })));
    assert_eq!(used, 0);
    let (result, _) = value(PropType::from_base_type(0x0009), &[]);
    assert!(matches!(result, Err(TnefReadError::InvalidPropertyType { property_type: 0x0009 })));
}

#[test]
fn other_with_a_known_code_is_the_known_type() {
    let (result, used) = value(PropType::Other(0x0003), &[5, 0, 0, 0]);
    assert_eq!(result.unwrap(), PropValue::Integer32(5));
    assert_eq!(used, 4);
}

#[test]
fn property_without_a_name() {
    let bytes = [0x03, 0x00, 0x37, 0x00, 0x2A, 0x00, 0x00, 0x00, 0x99];
    let mut reader = BinaryReader::new(&bytes);
    let property = decode_property(&mut reader, TextEncoding::utf8()).unwrap();
    assert_eq!(
        property,
        Property {
            tag: PropTag::TagSubject,
            property_type: PropType::Integer32,
            id: None,
            value: PropValue::Integer32(42),
        }
    );
    assert_eq!(reader.remaining(), 1);
}

#[test]
fn named_property_with_a_number() {
    let mut bytes = vec![0x0B, 0x00, 0x03, 0x85];
    bytes.extend_from_slice(&[
        0x08, 0x20, 0x06, 0x00, 0x00, 0x00, 0x00, 0x00, 0xC0, 0x00, 0x00, 0x00, 0x00, 0x00, 0x00,
        0x46,
    ]);
    bytes.extend_from_slice(&[0, 0, 0, 0]);
    bytes.extend_from_slice(&[0x03, 0x85, 0x00, 0x00]);
    bytes.extend_from_slice(&[1, 0, 0, 0]);
    let mut reader = BinaryReader::new(&bytes);
    let property = decode_property(&mut reader, TextEncoding::utf8()).unwrap();
    assert_eq!(property.tag.to_base_type(), 0x8503);
    assert!(property.tag.is_named());
    assert_eq!(
        property.id,
        Some((
            Guid { data1: 0x0006_2008, data2: 0, data3: 0, data4: [0xC0, 0, 0, 0, 0, 0, 0, 0x46] },
            PropId::Number(0x8503)
        ))
    );
    assert_eq!(property.value, PropValue::Boolean(true));
    assert_eq!(reader.remaining(), 0);
}

#[test]
fn named_property_with_a_name() {
    let mut bytes = vec![0x03, 0x00, 0x00, 0x80];
    bytes.extend_from_slice(&[0x77; 16]);
    bytes.extend_from_slice(&[1, 0, 0, 0]);
    bytes.extend_from_slice(&[6, 0, 0, 0]);
    bytes.extend_from_slice(&utf16("Key"));
    bytes.extend_from_slice(&[0, 0]);
    bytes.extend_from_slice(&[9, 0, 0, 0]);
    let mut reader = BinaryReader::new(&bytes);
    let property = decode_property(&mut reader, TextEncoding::utf8()).unwrap();
    assert_eq!(
        property.id,
        Some((
            Guid { data1: 0x7777_7777, data2: 0x7777, data3: 0x7777, data4: [0x77; 8] },
            PropId::String("Key".to_string())
        ))
    );
    assert_eq!(property.value, PropValue::Integer32(9));
    assert_eq!(reader.remaining(), 0);
}

#[test]
fn named_property_name_with_an_odd_byte_count_reads_whole_code_units_and_pads_by_the_count() {
    let mut bytes = vec![0x03, 0x00, 0x01, 0x80];
    bytes.extend_from_slice(&[0; 16]);
    bytes.extend_from_slice(&[1, 0, 0, 0]);
    bytes.extend_from_slice(&[3, 0, 0, 0]);
    bytes.extend_from_slice(&[0x41, 0x00]);
    bytes.extend_from_slice(&[0xFF]);
    bytes.extend_from_slice(&[5, 0, 0, 0]);
    let mut reader = BinaryReader::new(&bytes);
    let property = decode_property(&mut reader, TextEncoding::utf8()).unwrap();
    assert_eq!(property.id.unwrap().1, PropId::String("A".to_string()));
    assert_eq!(property.value, PropValue::Integer32(5));
    assert_eq!(reader.remaining(), 0);
}

#[test]
fn named_property_with_an_unknown_kind_is_refused() {
    let mut bytes = vec![0x03, 0x00, 0xFF, 0xFF];
    bytes.extend_from_slice(&[0; 16]);
    bytes.extend_from_slice(&[2, 0, 0, 0]);
    bytes.extend_from_slice(&[0; 8]);
    let mut reader = BinaryReader::new(&bytes);
    assert!(matches!(
        decode_property(&mut reader, TextEncoding::utf8()),
        Err(TnefReadError::InvalidIdType { obtained: 2 })
    ));
}

#[test]
fn named_property_with_a_malformed_name_is_refused_with_its_code_units() {
    let mut bytes = vec![0x03, 0x00, 0x00, 0x80];
    bytes.extend_from_slice(&[0; 16]);
    bytes.extend_from_slice(&[1, 0, 0, 0]);
    bytes.extend_from_slice(&[4, 0, 0, 0, 0x00, 0xDC, 0x42, 0x00]);
    bytes.extend_from_slice(&[0; 4]);
    let mut reader = BinaryReader::new(&bytes);
    match decode_property(&mut reader, TextEncoding::utf8()) {
        Err(TnefReadError::InvalidStringId { obtained }) => assert_eq!(obtained, vec![0xDC00, 0x0042]),
        other => panic!("{:?}", other),
    }
}

#[test]
fn tag_below_0x8000_has_no_name_and_from_0x8000_on_has_one() {
    for tag in [0x0000u16, 0x0037, 0x7FFF] {
        let mut bytes = vec![0x01, 0x00];
        bytes.extend_from_slice(&tag.to_le_bytes());
        let mut reader = BinaryReader::new(&bytes);
        let property = decode_property(&mut reader, TextEncoding::utf8()).unwrap();
        assert_eq!(property.id, None);
        assert_eq!(property.value, PropValue::Null);
    }
    for tag in [0x8000u16, 0x8001, 0xFFFF] {
        let mut bytes = vec![0x01, 0x00];
        bytes.extend_from_slice(&tag.to_le_bytes());
        bytes.extend_from_slice(&[0; 16]);
        bytes.extend_from_slice(&[0, 0, 0, 0, 1, 0, 0, 0]);
        let mut reader = BinaryReader::new(&bytes);
        let property = decode_property(&mut reader, TextEncoding::utf8()).unwrap();
        assert_eq!(property.id, Some((Guid::default(), PropId::Number(1))));
        let mut reader = BinaryReader::new(&bytes[..4]);
        assert!(matches!(
            decode_property(&mut reader, TextEncoding::utf8()),
            Err(TnefReadError::Io(IoFailure::UnexpectedEof))
        ));
    }
}

#[test]
fn property_list_is_a_count_and_that_many_properties() {
    let mut bytes = 3u32.to_le_bytes().to_vec();
    bytes.extend_from_slice(&[0x0B, 0x00, 0x1B, 0x0E, 0x00, 0x00, 0x00, 0x00]);
    bytes.extend_from_slice(&[0x1F, 0x00, 0x37, 0x00]);
    bytes.extend_from_slice(&counted(1, &[&utf16("Hi")]));
    bytes.extend_from_slice(&[0x02, 0x01, 0x13, 0x10]);
    bytes.extend_from_slice(&counted(1, &[b"<p>"]));
    bytes.extend_from_slice(&[0xEE]);
    let mut reader = BinaryReader::new(&bytes);
    let properties = decode_properties(&mut reader, TextEncoding::utf8()).unwrap();
    assert_eq!(
        properties,
        vec![
            Property {
                tag: PropTag::TagHasAttachments,
                property_type: PropType::Boolean,
                id: None,
                value: PropValue::Boolean(false),
            },
            Property {
                tag: PropTag::TagSubject,
                property_type: PropType::String,
                id: None,
                value: PropValue::String("Hi".to_string()),
            },
            Property {
                tag: PropTag::TagBodyHtml,
                property_type: PropType::Binary,
                id: None,
                value: PropValue::Binary(b"<p>".to_vec()),
            },
        ]
    );
    assert_eq!(reader.remaining(), 1);
    for p in &properties {
        assert_eq!(p.value.prop_type(), p.property_type);
    }
}

#[test]
fn property_list_that_ends_early_or_holds_a_bad_property_fails() {
    let mut reader = BinaryReader::new(&[]);
    assert!(matches!(
        decode_properties(&mut reader, TextEncoding::utf8()),
        Err(TnefReadError::Io(IoFailure::UnexpectedEof))
    ));
    let bytes = [2, 0, 0, 0, 0x0B, 0x00, 0x01, 0x00, 1, 0, 0, 0];
    let mut reader = BinaryReader::new(&bytes);
    assert!(matches!(
        decode_properties(&mut reader, TextEncoding::utf8()),
        Err(TnefReadError::Io(IoFailure::UnexpectedEof))
    ));
    let bytes = [2, 0, 0, 0, 0x0B, 0x00, 0x01, 0x00, 1, 0, 0, 0, 0x0B, 0x00, 0x01, 0x00, 3, 0, 0, 0];
    let mut reader = BinaryReader::new(&bytes);
    assert!(matches!(
        decode_properties(&mut reader, TextEncoding::utf8()),
        Err(TnefReadError::InvalidBoolean { obtained: 3 })
    ));
    let mut reader = BinaryReader::new(&[0, 0, 0, 0]);
    assert_eq!(decode_properties(&mut reader, TextEncoding::utf8()).unwrap(), vec![]);
}

#[test]
fn property_lists_are_a_count_and_that_many_lists() {
    let mut bytes = 3u32.to_le_bytes().to_vec();
    bytes.extend_from_slice(&[1, 0, 0, 0, 0x03, 0x00, 0x15, 0x0C, 1, 0, 0, 0]);
    bytes.extend_from_slice(&[0, 0, 0, 0]);
    bytes.extend_from_slice(&[2, 0, 0, 0, 0x03, 0x00, 0x15, 0x0C, 2, 0, 0, 0, 0x01, 0x00, 0x00, 0x00]);
    let mut reader = BinaryReader::new(&bytes);
    let lists = decode_property_lists(&mut reader, TextEncoding::utf8()).unwrap();
    assert_eq!(lists.len(), 3);
    assert_eq!(lists[0].len(), 1);
    assert_eq!(lists[0][0].tag, PropTag::TagRecipientType);
    assert_eq!(lists[0][0].value, PropValue::Integer32(1));
    assert_eq!(lists[1], vec![]);
    assert_eq!(lists[2].len(), 2);
    assert_eq!(lists[2][0].value, PropValue::Integer32(2));
    assert_eq!(lists[2][1].value, PropValue::Null);
    assert_eq!(reader.remaining(), 0);
    let mut reader = BinaryReader::new(&bytes[..bytes.len() - 2]);
    assert!(matches!(
        decode_property_lists(&mut reader, TextEncoding::utf8()),
        Err(TnefReadError::Io(IoFailure::UnexpectedEof))
    ));
}

#[test]
fn text_encodings_are_known_by_their_code_page() {
    assert_eq!(TextEncoding::utf8().code_page(), 65001);
    assert_eq!(TextEncoding::from_codepage(65001).unwrap().code_page(), 65001);
    assert_eq!(TextEncoding::from_codepage(1252).unwrap().code_page(), 1252);
    assert_eq!(TextEncoding::from_codepage(932).unwrap().code_page(), 932);
    assert!(TextEncoding::from_codepage(0).is_none());
    assert!(TextEncoding::from_codepage(437).is_none());
    assert_eq!(TextEncoding::utf8().decode(b"h\xC3\xA9"), "h\u{e9}");
    assert_eq!(TextEncoding::from_codepage(1252).unwrap().decode(b"h\xE9"), "h\u{e9}");
    assert_eq!(TextEncoding::from_codepage(932).unwrap().decode(b"\x83\x65"), "\u{30c6}");
}
