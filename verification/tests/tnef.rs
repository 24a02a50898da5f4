use msox::binread::{BinaryReader, IoFailure};
use msox::error::TnefReadError;
use msox::prop_tag::PropTag;
use msox::prop_type::PropType;
use msox::prop_value::PropValue;
use msox::property::decode_properties;
use msox::text::TextEncoding;
use msox::tnef::{checksum, read_attribute, read_tnef, TnefAttribute, TnefFile, TNEF_SIGNATURE};
use msox::tnef_enums::{TnefAttributeId, TnefAttributeLevel};

fn attribute(level: u8, id: u32, data: &[u8], sum: u16) -> Vec<u8> {
    let mut bytes = vec![level];
    bytes.extend_from_slice(&id.to_le_bytes());
    bytes.extend_from_slice(&(data.len() as i32).to_le_bytes());
    bytes.extend_from_slice(data);
    bytes.extend_from_slice(&sum.to_le_bytes());
    bytes
}

fn stream(key: u16, attributes: &[Vec<u8>]) -> Vec<u8> {
    let mut bytes = vec![0x78, 0x9F, 0x3E, 0x22];
    bytes.extend_from_slice(&key.to_le_bytes());
    for a in attributes {
        bytes.extend_from_slice(a);
    }
    bytes
}

const BOOLEAN_LIST: [u8; 12] = [0x01, 0x00, 0x00, 0x00, 0x0B, 0x00, 0x01, 0x00, 0x01, 0x00, 0x00, 0x00];

#[test]
fn signature_constant_is_the_first_four_bytes() {
    assert_eq!(TNEF_SIGNATURE, u32::from_le_bytes([0x78, 0x9F, 0x3E, 0x22]));
}

#[test]
fn empty_stream_has_a_key_and_no_attributes() {
    let file = read_tnef(&[0x78, 0x9F, 0x3E, 0x22, 0x00, 0x00]).unwrap();
    assert_eq!(file, TnefFile { legacy_key: 0, attributes: vec![] });
}

#[test]
fn legacy_key_is_little_endian() {
    let file = read_tnef(&[0x78, 0x9F, 0x3E, 0x22, 0x34, 0x12]).unwrap();
    assert_eq!(file.legacy_key, 0x1234);
}

#[test]
fn one_attribute_with_one_boolean_property() {
    let bytes = [
        0x78, 0x9F, 0x3E, 0x22, 0x00, 0x00, 0x01, 0x03, 0x90, 0x06, 0x00, 0x0C, 0x00, 0x00, 0x00,
        0x01, 0x00, 0x00, 0x00, 0x0B, 0x00, 0x01, 0x00, 0x01, 0x00, 0x00, 0x00, 0x0E, 0x00,
    ];
    assert_eq!(bytes.to_vec(), stream(0, &[attribute(1, 0x0006_9003, &BOOLEAN_LIST, 0x000E)]));
    let file = read_tnef(&bytes).unwrap();
    assert_eq!(file.legacy_key, 0);
    assert_eq!(
        file.attributes,
        vec![TnefAttribute {
            level: TnefAttributeLevel::Message,
            id: TnefAttributeId::MsgProps,
            data: BOOLEAN_LIST.to_vec(),
            checksum: 0x000E,
        }]
    );
    let mut reader = BinaryReader::new(&file.attributes[0].data);
    let properties = decode_properties(&mut reader, TextEncoding::utf8()).unwrap();
    assert_eq!(properties.len(), 1);
    assert_eq!(properties[0].value, PropValue::Boolean(true));
    assert_eq!(properties[0].property_type, PropType::Boolean);
    assert_eq!(properties[0].tag, PropTag::Other(0x0001));
    assert_eq!(properties[0].id, None);
    assert_eq!(reader.remaining(), 0);
}

#[test]
fn flipped_checksum_is_a_mismatch() {
    let bytes = stream(0, &[attribute(1, 0x0006_9003, &BOOLEAN_LIST, !0x000E)]);
    match read_tnef(&bytes) {
        Err(TnefReadError::ChecksumMismatch { obtained, calculated }) => {
            assert_eq!(obtained, 0xFFF1);
            assert_eq!(calculated, 0x000E);
        },
        other => panic!("{:?}", other),
    }
}

#[test]
fn attribute_with_a_checksum_of_zero_over_a_payload_that_sums_to_eleven_is_a_mismatch() {
    let bytes = [
        0x78, 0x9F, 0x3E, 0x22, 0x00, 0x00, 0x01, 0x09, 0x00, 0x06, 0x00, 0x02, 0x00, 0x00, 0x00,
        0x0B, 0x00, 0x00, 0x00, 0x00, 0x01, 0x00, 0x00, 0x01, 0x00, 0x0C, 0x00,
    ];
    assert!(matches!(
        read_tnef(&bytes),
        Err(TnefReadError::ChecksumMismatch { obtained: 0x0000, calculated: 0x000B })
    ));
}

#[test]
fn checksum_is_the_sum_of_the_bytes_modulo_65536() {
    assert_eq!(checksum(&vec![]), 0);
    assert_eq!(checksum(&vec![1, 2, 3]), 6);
    assert_eq!(checksum(&vec![0xFF; 257]), 0xFFFF);
    assert_eq!(checksum(&vec![0xFF; 258]), 0x00FE);
    assert_eq!(checksum(&vec![0x80; 1024]), 0);
}

#[test]
fn checksum_that_wraps_is_accepted_and_the_unwrapped_low_bits_only() {
    let data = vec![0xFFu8; 300];
    let sum = ((300u32 * 255) % 65536) as u16;
    assert_eq!(sum, 0x2AD4);
    let file = read_tnef(&stream(7, &[attribute(2, 0x0006_800F, &data, sum)])).unwrap();
    assert_eq!(file.attributes.len(), 1);
    assert_eq!(file.attributes[0].level, TnefAttributeLevel::Attachment);
    assert_eq!(file.attributes[0].id, TnefAttributeId::AttachData);
    assert_eq!(file.attributes[0].data, data);
    assert_eq!(file.attributes[0].checksum, sum);
    assert!(matches!(
        read_tnef(&stream(7, &[attribute(2, 0x0006_800F, &data, sum.wrapping_add(1))])),
        Err(TnefReadError::ChecksumMismatch { obtained: 0x2AD5, calculated: 0x2AD4 })
    ));
}

#[test]
fn attributes_keep_the_order_of_the_stream() {
    let bytes = stream(
        1,
        &[
            attribute(1, 0x0008_9006, &[0x00, 0x00, 0x01, 0x00], 1),
            attribute(1, 0x0006_9007, &[0xE4, 0x04, 0, 0, 0, 0, 0, 0], 0xE8),
            attribute(9, 0x1234_5678, &[], 0),
            attribute(2, 0x0006_800F, &[9, 9], 18),
        ],
    );
    let file = read_tnef(&bytes).unwrap();
    let ids: Vec<u32> = file.attributes.iter().map(|a| a.id.to_base_type()).collect();
    assert_eq!(ids, vec![0x0008_9006, 0x0006_9007, 0x1234_5678, 0x0006_800F]);
    assert!(matches!(file.attributes[2].level, TnefAttributeLevel::Other(9)));
    assert!(matches!(file.attributes[2].id, TnefAttributeId::Other(0x1234_5678)));
    assert_eq!(file.attributes[2].data, Vec::<u8>::new());
    assert!(matches!(file.attributes[0].id, TnefAttributeId::TnefVersion));
    assert!(matches!(file.attributes[1].id, TnefAttributeId::OemCodepage));
}

#[test]
fn wrong_signature_is_refused_with_both_values() {
    match read_tnef(&[0xD0, 0xCF, 0x11, 0xE0, 0x00, 0x00]) {
        Err(TnefReadError::Signature { expected, obtained }) => {
            assert_eq!(expected, 0x223E_9F78);
            assert_eq!(obtained, 0xE011_CFD0);
        },
        other => panic!("{:?}", other),
    }
}

#[test]
fn negative_length_is_refused() {
    let mut bytes = stream(0, &[]);
    bytes.extend_from_slice(&[0x01, 0x03, 0x90, 0x06, 0x00, 0xFF, 0xFF, 0xFF, 0xFF, 0x00, 0x00]);
    assert!(matches!(read_tnef(&bytes), Err(TnefReadError::LengthConversion { obtained: -1 })));
    let mut bytes = stream(0, &[]);
    bytes.extend_from_slice(&[0x01, 0x03, 0x90, 0x06, 0x00, 0x00, 0x00, 0x00, 0x80]);
    assert!(matches!(
        read_tnef(&bytes),
        Err(TnefReadError::LengthConversion { obtained: i32::MIN })
    ));
}

#[test]
fn end_of_input_inside_the_header_or_a_record_is_an_error() {
    let whole = stream(0, &[attribute(1, 0x0006_9003, &BOOLEAN_LIST, 0x000E)]);
    for cut in 0..whole.len() {
        if cut == 6 {
            continue;
        }
        assert!(
            matches!(read_tnef(&whole[..cut]), Err(TnefReadError::Io(IoFailure::UnexpectedEof))),
            "cut at {}",
            cut
        );
    }
    assert_eq!(read_tnef(&whole[..6]).unwrap().attributes.len(), 0);
    assert_eq!(read_tnef(&whole).unwrap().attributes.len(), 1);
}

#[test]
fn read_attribute_leaves_the_reader_behind_the_checksum() {
    let mut bytes = attribute(2, 0x0006_9005, &[1, 2, 3], 6);
    bytes.extend_from_slice(&[0xAA, 0xBB]);
    let mut reader = BinaryReader::new(&bytes);
    let read = read_attribute(&mut reader).unwrap();
    assert_eq!(read.level, TnefAttributeLevel::Attachment);
    assert_eq!(read.id, TnefAttributeId::Attachment);
    assert_eq!(read.data, vec![1, 2, 3]);
    assert_eq!(read.checksum, 6);
    assert_eq!(reader.remaining(), 2);
    let mut reader = BinaryReader::new(&[]);
    assert!(matches!(
        read_attribute(&mut reader),
        Err(TnefReadError::Io(IoFailure::UnexpectedEof))
    ));
}
