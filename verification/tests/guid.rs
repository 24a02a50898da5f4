use msox::guid::Guid;

#[test]
fn guid_from_little_endian_bytes() {
    let bytes = [
        0x33, 0x22, 0x11, 0x00, 0x55, 0x44, 0x77, 0x66, 0x88, 0x99, 0xAA, 0xBB, 0xCC, 0xDD, 0xEE,
        0xFF,
    ];
    let guid = Guid::from_le_bytes(&bytes).unwrap();
    assert_eq!(
        guid,
        Guid {
            data1: 0x0011_2233,
            data2: 0x4455,
            data3: 0x6677,
            data4: [0x88, 0x99, 0xAA, 0xBB, 0xCC, 0xDD, 0xEE, 0xFF],
        }
    );
}

#[test]
fn guid_from_big_endian_bytes() {
    let bytes = [
        0x00, 0x11, 0x22, 0x33, 0x44, 0x55, 0x66, 0x77, 0x88, 0x99, 0xAA, 0xBB, 0xCC, 0xDD, 0xEE,
        0xFF,
    ];
    let guid = Guid::from_be_bytes(&bytes).unwrap();
    assert_eq!(
        guid,
        Guid {
            data1: 0x0011_2233,
            data2: 0x4455,
            data3: 0x6677,
            data4: [0x88, 0x99, 0xAA, 0xBB, 0xCC, 0xDD, 0xEE, 0xFF],
        }
    );
}

#[test]
fn guid_needs_exactly_sixteen_bytes() {
    assert_eq!(Guid::from_le_bytes(&[0u8; 15]), None);
    assert_eq!(Guid::from_le_bytes(&[0u8; 17]), None);
    assert_eq!(Guid::from_be_bytes(&[]), None);
    assert_eq!(Guid::from_be_bytes(&[0u8; 32]), None);
    assert_eq!(Guid::from_le_bytes(&[0u8; 16]), Some(Guid::default()));
}

#[test]
fn guid_canonical_text_is_upper_case_with_leading_zeros() {
    let guid = Guid {
        data1: 0x0002_0329,
        data2: 0x0000,
        data3: 0x00AB,
        data4: [0xC0, 0x00, 0x00, 0x00, 0x00, 0x00, 0x00, 0x46],
    };
    assert_eq!(guid.to_canonical_string(), "00020329-0000-00AB-C000-000000000046");
    assert_eq!(Guid::default().to_canonical_string(), "00000000-0000-0000-0000-000000000000");
    let full = Guid {
        data1: 0xFFFF_FFFF,
        data2: 0xFEDC,
        data3: 0xBA98,
        data4: [0x76, 0x54, 0x32, 0x10, 0x0F, 0x1E, 0x2D, 0x3C],
    };
    assert_eq!(full.to_canonical_string(), "FFFFFFFF-FEDC-BA98-7654-32100F1E2D3C");
}
