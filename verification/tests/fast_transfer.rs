use msox::binread::{BinaryReader, IoFailure};
use msox::error::TnefReadError;
use msox::fast_transfer::{
    decode_transfer_value, parse_message, read_chunk, read_chunks, read_element, read_transfer_id,
    Chunk, Element, Marker, PropertyId, PropertyNameInfo, MESSAGE_CHUNK,
};
use msox::guid::Guid;
use msox::prop_type::PropType;
use msox::prop_value::PropValue;

fn word(id: u16, type_code: u16) -> Vec<u8> {
    (((id as u32) << 16) | type_code as u32).to_le_bytes().to_vec()
}

fn property(id: u16, type_code: u16, value: &[u8]) -> Vec<u8> {
    let mut bytes = word(id, type_code);
    bytes.extend_from_slice(value);
    bytes
}

fn value(prop_type: PropType, bytes: &[u8]) -> Result<PropValue, TnefReadError> {
    let mut reader = BinaryReader::new(bytes);
    let result = decode_transfer_value(prop_type, &mut reader);
    if result.is_ok() {
        assert_eq!(reader.remaining(), 0, "all bytes are used");
    }
    result
}

fn sized(bytes: &[u8]) -> Vec<u8> {
    let mut out = (bytes.len() as u32).to_le_bytes().to_vec();
    out.extend_from_slice(bytes);
    out
}

fn utf16(text: &str) -> Vec<u8> {
    text.encode_utf16().flat_map(|u| u.to_le_bytes()).collect()
}

#[test]
fn markers_are_told_by_their_words() {
    let all = [
        (Marker::StartTopFld, 0x4009_0003u32),
        (Marker::StartSubFld, 0x400A_0003),
        (Marker::EndFolder, 0x400B_0003),
        (Marker::StartMessage, 0x400C_0003),
        (Marker::EndMessage, 0x400D_0003),
        (Marker::StartFAIMsg, 0x4010_0003),
        (Marker::StartEmbed, 0x4001_0003),
        (Marker::EndEmbed, 0x4002_0003),
        (Marker::StartRecip, 0x4003_0003),
        (Marker::EndToRecip, 0x4004_0003),
        (Marker::NewAttach, 0x4000_0003),
        (Marker::EndAttach, 0x400E_0003),
        (Marker::IncrSyncChg, 0x4012_0003),
        (Marker::IncrSyncChgPartial, 0x407D_0003),
        (Marker::IncrSyncDel, 0x4013_0003),
        (Marker::IncrSyncEnd, 0x4014_0003),
        (Marker::IncrSyncRead, 0x402F_0003),
        (Marker::IncrSyncStateBegin, 0x403A_0003),
        (Marker::IncrSyncStateEnd, 0x403B_0003),
        (Marker::IncrSyncProgressMode, 0x4074_000B),
        (Marker::IncrSyncProgressPerMsg, 0x4075_000B),
        (Marker::IncrSyncMessage, 0x4015_0003),
        (Marker::IncrSyncGroupInfo, 0x407B_0102),
        (Marker::FXErrorInfo, 0x4018_0003),
    ];
    for (marker, code) in all {
        assert_eq!(marker.into_repr(), code);
        assert_eq!(Marker::try_from_repr(code), Some(marker));
    }
    for code in [0u32, 0x4009_0002, 0x4011_0003, 0x0037_001F, u32::MAX] {
        assert_eq!(Marker::try_from_repr(code), None);
    }
}

#[test]
fn chunks_are_a_type_a_length_and_bytes() {
    let mut bytes = vec![2, 0, 0, 0, 3, 0, 0, 0, 0xAA, 0xBB, 0xCC];
    bytes.extend_from_slice(&[7, 0, 0, 0, 0, 0, 0, 0]);
    assert_eq!(MESSAGE_CHUNK, 2);
    assert_eq!(
        read_chunks(&bytes).unwrap(),
        vec![
            Chunk { chunk_type: 2, data: vec![0xAA, 0xBB, 0xCC] },
            Chunk { chunk_type: 7, data: vec![] },
        ]
    );
    assert_eq!(read_chunks(&[]).unwrap(), vec![]);
    for cut in 1..bytes.len() {
        if cut == 11 {
            assert_eq!(read_chunks(&bytes[..cut]).unwrap().len(), 1);
        } else {
            assert!(matches!(
                read_chunks(&bytes[..cut]),
                Err(TnefReadError::Io(IoFailure::UnexpectedEof))
            ));
        }
    }
    let mut reader = BinaryReader::new(&bytes);
    assert_eq!(read_chunk(&mut reader).unwrap().data, vec![0xAA, 0xBB, 0xCC]);
    assert_eq!(reader.remaining(), 8);
}

#[test]
fn message_of_markers_and_properties() {
    let mut bytes = 0x400C_0003u32.to_le_bytes().to_vec();
    bytes.extend_from_slice(&property(0x0E07, 0x0003, &[1, 0, 0, 0]));
    bytes.extend_from_slice(&property(0x0037, 0x001F, &[1, 0, 0, 0, 4, 0, 0, 0, 0x48, 0, 0x69, 0]));
    bytes.extend_from_slice(&0x400D_0003u32.to_le_bytes());
    assert_eq!(
        parse_message(&bytes).unwrap(),
        vec![
            Element::Marker(Marker::StartMessage),
            Element::Property {
                prop_type: PropType::Integer32,
                id: PropertyId::Tagged { tag: 0x0E07 },
                value: PropValue::Integer32(1),
            },
            Element::Property {
                prop_type: PropType::String,
                id: PropertyId::Tagged { tag: 0x0037 },
                value: PropValue::String("Hi".to_string()),
            },
            Element::Marker(Marker::EndMessage),
        ]
    );
    assert_eq!(parse_message(&[]).unwrap(), vec![]);
    for cut in [1usize, 3, 5, 7, 9, 13, 19, 23, 25] {
        assert!(
            matches!(parse_message(&bytes[..cut]), Err(TnefReadError::Io(IoFailure::UnexpectedEof))),
            "cut at {}",
            cut
        );
    }
    assert_eq!(parse_message(&bytes[..4]).unwrap().len(), 1);
    assert_eq!(parse_message(&bytes[..12]).unwrap().len(), 2);
}

#[test]
fn read_element_stops_behind_the_element() {
    let mut bytes = property(0x0001, 0x0002, &[0xFE, 0xFF]);
    bytes.extend_from_slice(&[9, 9]);
    let mut reader = BinaryReader::new(&bytes);
    assert_eq!(
        read_element(&mut reader).unwrap(),
        Element::Property {
            prop_type: PropType::Integer16,
            id: PropertyId::Tagged { tag: 1 },
            value: PropValue::Integer16(-2),
        }
    );
    assert_eq!(reader.remaining(), 2);
}

#[test]
fn named_properties_carry_a_set_and_a_number_or_a_name() {
    let mut by_number = vec![0x11; 16];
    by_number.extend_from_slice(&[0, 0x34, 0x12, 0, 0, 0xEE]);
    let mut reader = BinaryReader::new(&by_number);
    assert_eq!(
        read_transfer_id(&mut reader, 0x8000).unwrap(),
        PropertyId::Named {
            property_set: Guid { data1: 0x1111_1111, data2: 0x1111, data3: 0x1111, data4: [0x11; 8] },
            name_info: PropertyNameInfo::DisplayId(0x1234),
        }
    );
    assert_eq!(reader.remaining(), 1);

    let mut by_name = vec![0x22; 16];
    by_name.push(1);
    by_name.extend_from_slice(&utf16("Key"));
    by_name.extend_from_slice(&[0, 0, 0xEE, 0xEE]);
    let mut reader = BinaryReader::new(&by_name);
    assert_eq!(
        read_transfer_id(&mut reader, 0xFFFF).unwrap(),
        PropertyId::Named {
            property_set: Guid { data1: 0x2222_2222, data2: 0x2222, data3: 0x2222, data4: [0x22; 8] },
            name_info: PropertyNameInfo::Name("Key".to_string()),
        }
    );
    assert_eq!(reader.remaining(), 2);

    let mut empty_name = vec![0; 16];
    empty_name.extend_from_slice(&[1, 0, 0]);
    let mut reader = BinaryReader::new(&empty_name);
    assert_eq!(
        read_transfer_id(&mut reader, 0x8001).unwrap(),
        PropertyId::Named {
            property_set: Guid::default(),
            name_info: PropertyNameInfo::Name(String::new()),
        }
    );

    let mut reader = BinaryReader::new(&[1, 2, 3]);
    assert_eq!(read_transfer_id(&mut reader, 0x7FFF).unwrap(), PropertyId::Tagged { tag: 0x7FFF });
    assert_eq!(reader.remaining(), 3);
}

#[test]
fn named_property_failures() {
    let mut bad_kind = vec![0; 16];
    bad_kind.extend_from_slice(&[2, 0, 0, 0, 0]);
    let mut reader = BinaryReader::new(&bad_kind);
    assert!(matches!(
        read_transfer_id(&mut reader, 0x8000),
        Err(TnefReadError::InvalidIdType { obtained: 2 })
    ));
    let mut bad_name = vec![0; 16];
    bad_name.extend_from_slice(&[1, 0x00, 0xD8, 0x41, 0x00, 0, 0]);
    let mut reader = BinaryReader::new(&bad_name);
    match read_transfer_id(&mut reader, 0x8000) {
        Err(TnefReadError::InvalidStringId { obtained }) => assert_eq!(obtained, vec![0xD800, 0x0041]),
        other => panic!("{:?}", other),
    }
    let mut open_name = vec![0; 16];
    open_name.extend_from_slice(&[1, 0x41, 0x00, 0x42]);
    let mut reader = BinaryReader::new(&open_name);
    assert!(matches!(
        read_transfer_id(&mut reader, 0x8000),
        Err(TnefReadError::Io(IoFailure::UnexpectedEof))
    ));
    let mut reader = BinaryReader::new(&[0; 15]);
    assert!(matches!(
        read_transfer_id(&mut reader, 0x8000),
        Err(TnefReadError::Io(IoFailure::UnexpectedEof))
    ));
}

#[test]
fn scalar_values_are_not_padded() {
    assert_eq!(value(PropType::Unspecified, &[]).unwrap(), PropValue::Unspecified);
    assert_eq!(value(PropType::Null, &[]).unwrap(), PropValue::Null);
    assert_eq!(value(PropType::Integer16, &[0x01, 0x80]).unwrap(), PropValue::Integer16(-32767));
    assert_eq!(value(PropType::Integer32, &[0xFF; 4]).unwrap(), PropValue::Integer32(-1));
    assert_eq!(
        value(PropType::Floating32, &2.5f32.to_le_bytes()).unwrap(),
        PropValue::Floating32(2.5f32.to_bits())
    );
    assert_eq!(
        value(PropType::Floating64, &2.5f64.to_le_bytes()).unwrap(),
        PropValue::Floating64(2.5f64.to_bits())
    );
    assert_eq!(value(PropType::Currency, &[1, 0, 0, 0, 0, 0, 0, 0]).unwrap(), PropValue::Currency(1));
    assert_eq!(
        value(PropType::FloatingTime, &1.0f64.to_le_bytes()).unwrap(),
        PropValue::FloatingTime(1.0f64.to_bits())
    );
    assert_eq!(
        value(PropType::ErrorCode, &[0x05, 0x40, 0x00, 0x80]).unwrap(),
        PropValue::ErrorCode(0x8000_4005)
    );
    assert_eq!(value(PropType::Integer64, &[0xFF; 8]).unwrap(), PropValue::Integer64(-1));
    assert_eq!(value(PropType::Time, &[2, 0, 0, 0, 0, 0, 0, 0]).unwrap(), PropValue::Time(2));
    assert_eq!(
        value(PropType::Guid, &[0x33; 16]).unwrap(),
        PropValue::Guid(Guid { data1: 0x3333_3333, data2: 0x3333, data3: 0x3333, data4: [0x33; 8] })
    );
    assert!(matches!(
        value(PropType::Integer16, &[1]),
        Err(TnefReadError::Io(IoFailure::UnexpectedEof))
    ));
}

#[test]
fn boolean_is_a_word_of_zero_or_one() {
    assert_eq!(value(PropType::Boolean, &[0, 0]).unwrap(), PropValue::Boolean(false));
    assert_eq!(value(PropType::Boolean, &[1, 0]).unwrap(), PropValue::Boolean(true));
    assert!(matches!(
        value(PropType::Boolean, &[2, 0]),
        Err(TnefReadError::InvalidBooleanWord { obtained: 2 })
    ));
    assert!(matches!(
        value(PropType::Boolean, &[1, 1]),
        Err(TnefReadError::InvalidBooleanWord { obtained: 0x0101 })
    ));
    assert!(matches!(
        value(PropType::Boolean, &[1]),
        Err(TnefReadError::Io(IoFailure::UnexpectedEof))
    ));
}

#[test]
fn object_has_a_count_and_binary_has_none() {
    let mut object = vec![1, 0, 0, 0];
    object.extend_from_slice(&sized(&[1, 2, 3]));
    assert_eq!(value(PropType::Object, &object).unwrap(), PropValue::Object(vec![1, 2, 3]));
    assert_eq!(value(PropType::Binary, &sized(&[1, 2, 3])).unwrap(), PropValue::Binary(vec![1, 2, 3]));
    assert_eq!(value(PropType::Binary, &sized(&[])).unwrap(), PropValue::Binary(vec![]));
    let mut two = vec![2, 0, 0, 0];
    two.extend_from_slice(&sized(&[1]));
    match value(PropType::Object, &two) {
        Err(TnefReadError::MultipleValuesSingleType { prop_type, count }) => {
            assert_eq!(prop_type, PropType::Object);
            assert_eq!(count, 2);
        },
        other => panic!("{:?}", other),
    }
    assert!(matches!(
        value(PropType::Binary, &[4, 0, 0, 0, 1, 2, 3]),
        Err(TnefReadError::Io(IoFailure::UnexpectedEof))
    ));
}

#[test]
fn string8_is_strict_utf8() {
    let mut one = vec![1, 0, 0, 0];
    one.extend_from_slice(&sized("gr\u{fc}n".as_bytes()));
    assert_eq!(value(PropType::String8, &one).unwrap(), PropValue::String8("gr\u{fc}n".to_string()));
    let mut bad = vec![1, 0, 0, 0];
    bad.extend_from_slice(&sized(&[0x67, 0xFC]));
    match value(PropType::String8, &bad) {
        Err(TnefReadError::InvalidString8 { obtained }) => assert_eq!(obtained, vec![0x67, 0xFC]),
        other => panic!("{:?}", other),
    }
    let mut none = vec![0, 0, 0, 0];
    none.extend_from_slice(&sized(b"x"));
    assert!(matches!(
        value(PropType::String8, &none),
        Err(TnefReadError::MultipleValuesSingleType { count: 0, .. })
    ));
    let mut many = vec![3, 0, 0, 0];
    many.extend_from_slice(&sized(b"a"));
    many.extend_from_slice(&sized(b""));
    many.extend_from_slice(&sized("\u{20ac}".as_bytes()));
    assert_eq!(
        value(PropType::MultipleString8, &many).unwrap(),
        PropValue::MultipleString8(vec!["a".to_string(), String::new(), "\u{20ac}".to_string()])
    );
}

#[test]
fn string_is_utf16_of_even_length() {
    let mut one = vec![1, 0, 0, 0];
    one.extend_from_slice(&sized(&utf16("h\u{e9}\u{1f600}")));
    assert_eq!(
        value(PropType::String, &one).unwrap(),
        PropValue::String("h\u{e9}\u{1f600}".to_string())
    );
    assert!(matches!(
        value(PropType::String, &[1, 0, 0, 0, 3, 0, 0, 0, 0x41, 0, 0x42]),
        Err(TnefReadError::OddStringLength { byte_length: 3 })
    ));
    match value(PropType::String, &[1, 0, 0, 0, 2, 0, 0, 0, 0x00, 0xDC]) {
        Err(TnefReadError::InvalidString { obtained }) => assert_eq!(obtained, vec![0xDC00]),
        other => panic!("{:?}", other),
    }
    let mut many = vec![2, 0, 0, 0];
    many.extend_from_slice(&sized(&utf16("a")));
    many.extend_from_slice(&sized(&utf16("bcd")));
    assert_eq!(
        value(PropType::MultipleString, &many).unwrap(),
        PropValue::MultipleString(vec!["a".to_string(), "bcd".to_string()])
    );
}

#[test]
fn arrays_are_a_count_and_packed_elements() {
    assert_eq!(
        value(PropType::MultipleInteger16, &[3, 0, 0, 0, 1, 0, 0xFF, 0xFF, 2, 0]).unwrap(),
        PropValue::MultipleInteger16(vec![1, -1, 2])
    );
    assert_eq!(
        value(PropType::MultipleInteger32, &[1, 0, 0, 0, 5, 0, 0, 0]).unwrap(),
        PropValue::MultipleInteger32(vec![5])
    );
    assert_eq!(
        value(PropType::MultipleFloating32, &[1, 0, 0, 0, 0, 0, 0x80, 0x3F]).unwrap(),
        PropValue::MultipleFloating32(vec![1.0f32.to_bits()])
    );
    let mut eights = vec![2, 0, 0, 0];
    eights.extend_from_slice(&7i64.to_le_bytes());
    eights.extend_from_slice(&(-7i64).to_le_bytes());
    assert_eq!(
        value(PropType::MultipleInteger64, &eights).unwrap(),
        PropValue::MultipleInteger64(vec![7, -7])
    );
    assert_eq!(value(PropType::MultipleTime, &eights).unwrap(), PropValue::MultipleTime(vec![7, -7]));
    assert_eq!(
        value(PropType::MultipleCurrency, &eights).unwrap(),
        PropValue::MultipleCurrency(vec![7, -7])
    );
    assert_eq!(
        value(PropType::MultipleFloating64, &eights).unwrap(),
        PropValue::MultipleFloating64(vec![7, (-7i64) as u64])
    );
    assert_eq!(
        value(PropType::MultipleFloatingTime, &eights).unwrap(),
        PropValue::MultipleFloatingTime(vec![7, (-7i64) as u64])
    );
    let mut guids = vec![1, 0, 0, 0];
    guids.extend_from_slice(&[0x44; 16]);
    assert_eq!(
        value(PropType::MultipleGuid, &guids).unwrap(),
        PropValue::MultipleGuid(vec![Guid {
            data1: 0x4444_4444,
            data2: 0x4444,
            data3: 0x4444,
            data4: [0x44; 8]
        }])
    );
    let mut binaries = vec![2, 0, 0, 0];
    binaries.extend_from_slice(&sized(&[9]));
    binaries.extend_from_slice(&sized(&[]));
    assert_eq!(
        value(PropType::MultipleBinary, &binaries).unwrap(),
        PropValue::MultipleBinary(vec![vec![9], vec![]])
    );
    assert_eq!(
        value(PropType::MultipleInteger32, &[0, 0, 0, 0]).unwrap(),
        PropValue::MultipleInteger32(vec![])
    );
    assert!(matches!(
        value(PropType::MultipleInteger32, &[2, 0, 0, 0, 5, 0, 0, 0]),
        Err(TnefReadError::Io(IoFailure::UnexpectedEof))
    ));
}

#[test]
fn type_with_the_highest_bit_holds_a_text_in_the_code_page_it_names() {
    let latin = PropType::from_base_type(0x8000 | 1252);
    assert_eq!(
        value(latin, &sized(b"caf\xE9")).unwrap(),
        PropValue::String("caf\u{e9}".to_string())
    );
    let utf16 = PropType::from_base_type(0x8000 | 1200);
    assert_eq!(
        value(utf16, &sized(&[0xFF, 0xFE, 0x6F, 0x00, 0xAC, 0x20])).unwrap(),
        PropValue::String("o\u{20ac}".to_string())
    );
    match value(utf16, &sized(&[0x6F, 0x00, 0x00, 0xD8])) {
        Err(TnefReadError::InvalidString8 { obtained }) => {
            assert_eq!(obtained, vec![0x6F, 0x00, 0x00, 0xD8])
        },
        other => panic!("{:?}", other),
    }
    assert!(matches!(
        value(PropType::from_base_type(65001), &sized(b"x")),
        Err(TnefReadError::UnknownCodepage { code_page: 32233 })
    ));
    let japanese = PropType::from_base_type(0x8000 | 932);
    assert_eq!(value(japanese, &sized(b"\x83\x65")).unwrap(), PropValue::String("\u{30c6}".to_string()));
    assert!(matches!(
        value(japanese, &sized(b"\x83")),
        Err(TnefReadError::InvalidString8 { .. })
    ));
    assert!(matches!(
        value(PropType::from_base_type(0x8000 | 437), &sized(b"x")),
        Err(TnefReadError::UnknownCodepage { code_page: 437 })
    ));
    assert!(matches!(
        value(PropType::from_base_type(0x8000), &[]),
        Err(TnefReadError::UnknownCodepage { code_page: 0 })
    ));
    assert!(matches!(
        value(PropType::from_base_type(0x0008), &sized(b"x")),
        Err(TnefReadError::InvalidPropertyType { property_type: 0x0008 })
    ));
    assert!(matches!(
        value(PropType::Other(0x7FFF), &[]),
        Err(TnefReadError::InvalidPropertyType { property_type: 0x7FFF })
    ));
    assert!(matches!(
        value(latin, &[5, 0, 0, 0, 1]),
        Err(TnefReadError::Io(IoFailure::UnexpectedEof))
    ));
}

#[test]
fn property_in_a_code_page_within_a_message() {
    let mut bytes = property(0x0037, 0x8000 | 1251, &sized(b"\xCF\xF0\xE8"));
    bytes.extend_from_slice(&0x400D_0003u32.to_le_bytes());
    assert_eq!(
        parse_message(&bytes).unwrap(),
        vec![
            Element::Property {
                prop_type: PropType::Other(0x8000 | 1251),
                id: PropertyId::Tagged { tag: 0x0037 },
                value: PropValue::String("\u{41f}\u{440}\u{438}".to_string()),
            },
            Element::Marker(Marker::EndMessage),
        ]
    );
}
