use msox::enum_source::{byte_string_to_le_int_string, AliasedProperty, DefinedProperty};

#[test]
fn dotted_byte_string_is_reversed_piece_by_piece() {
    assert_eq!(byte_string_to_le_int_string("01.02.03"), "030201");
    assert_eq!(byte_string_to_le_int_string("0x20.06.00.00"), "0000060x20");
    assert_eq!(byte_string_to_le_int_string("C0.00.00.00.00.00.00.46"), "46000000000000C0");
    assert_eq!(byte_string_to_le_int_string("ab"), "ab");
    assert_eq!(byte_string_to_le_int_string(""), "");
    assert_eq!(byte_string_to_le_int_string("."), "");
    assert_eq!(byte_string_to_le_int_string("a."), "a");
    assert_eq!(byte_string_to_le_int_string(".a"), "a");
    assert_eq!(byte_string_to_le_int_string("a..b"), "ba");
    assert_eq!(byte_string_to_le_int_string("abc.de.f"), "fdeabc");
    assert_eq!(byte_string_to_le_int_string("\u{e9}1.\u{1f600}2"), "\u{1f600}2\u{e9}1");
}

#[test]
fn dotted_byte_string_agrees_with_split_reverse_concat() {
    for text in ["", "1", "1.2", "12.34.56.78", "..", "a.b.", ".x.y", "no dots at all", "1.22.333.4444"] {
        let mut pieces: Vec<&str> = text.split('.').collect();
        pieces.reverse();
        assert_eq!(byte_string_to_le_int_string(text), pieces.concat(), "{:?}", text);
    }
}

#[test]
fn defined_property_line_has_the_code_in_four_hexadecimal_digits() {
    let subject = DefinedProperty { value: 0x0037, name: "TagSubject".to_string() };
    assert_eq!(subject.to_enum_variant(), "    TagSubject = 0x0037,");
    let high = DefinedProperty { value: 0xFFFE, name: "_7BitDisplayName".to_string() };
    assert_eq!(high.to_enum_variant(), "    _7BitDisplayName = 0xFFFE,");
    let zero = DefinedProperty { value: 0, name: String::new() };
    assert_eq!(zero.to_enum_variant(), "     = 0x0000,");
    let mixed = DefinedProperty { value: 0x0C1A, name: "TagSenderName".to_string() };
    assert_eq!(mixed.to_enum_variant(), "    TagSenderName = 0x0C1A,");
}

#[test]
fn aliased_property_line_is_a_comment() {
    let alias = AliasedProperty {
        name: "TagAttachDataObject".to_string(),
        target: "TagAttachDataBinary".to_string(),
    };
    assert_eq!(alias.to_enum_variant(), "    // TagAttachDataObject = TagAttachDataBinary");
    let empty = AliasedProperty { name: String::new(), target: String::new() };
    assert_eq!(empty.to_enum_variant(), "    //  = ");
}
