//! What the layout of a TNEF property implies for the property that is
//! decoded from it: which bytes decide its type, its tag and its
//! identifier, and how far a single value of variable length reaches.

use vstd::prelude::*;
use crate::binread::{le16, le32, padding};
use crate::grammar::{done, take_units};
use crate::guid::guid_from_le;
use crate::prop_tag::PropTag;
use crate::prop_type::PropType;
use crate::prop_value::PropValueView;
use crate::property::{
    lemma_property_well_formed, spec_property, spec_property_id, spec_value, PropIdView,
};
use crate::text::{codepage_text, utf16_text};

verus! {

/// The type code of the property that `s` starts with: its first two
/// bytes.
pub open spec fn type_code_of(s: Seq<u8>) -> u16 {
    le16(s) as u16
}

/// The tag of the property that `s` starts with: its third and fourth
/// byte.
pub open spec fn tag_code_of(s: Seq<u8>) -> u16 {
    le16(s.skip(2)) as u16
}

/// Whether `type_code` is that of a single value of variable length: an
/// object, a byte string, or a text.
pub open spec fn is_single_variable(type_code: u16) -> bool {
    type_code == 0x000D || type_code == 0x0102 || type_code == 0x001E || type_code == 0x001F
}

/// The number of bytes that a property with a single value of variable
/// length takes when its tag names no property set: the type code and the
/// tag, the count, the length, the `length` bytes of the value, and the
/// padding to the next multiple of four.
pub open spec fn single_value_span(length: nat) -> nat {
    12 + length + padding(length)
}

/// A decoded property has the type that its first two bytes name, which
/// is one of the known types, a value of that type, and the tag that its
/// third and fourth byte name; it carries a property set and an
/// identifier exactly if that tag is `0x8000` or more.
pub proof fn lemma_property_header(code_page: u16, s: Seq<u8>)
    ensures
        spec_property(code_page, s) matches Ok((property, _)) ==> {
            &&& s.len() >= 4
            &&& property.property_type == PropType::spec_from_base_type(type_code_of(s))
            &&& property.property_type !is Other
            &&& property.value.prop_type() == property.property_type
            &&& property.tag == PropTag::spec_from_base_type(tag_code_of(s))
            &&& (property.id is Some <==> tag_code_of(s) >= 0x8000)
        },
{
    lemma_property_well_formed(code_page, s);
    PropTag::lemma_code_round_trip(tag_code_of(s));
    PropType::lemma_code_round_trip(type_code_of(s));
}

/// The value of a decoded property starts behind the tag where the tag is
/// below `0x8000`, and behind the property set and identifier that follow
/// the tag where it is not.
pub proof fn lemma_property_value_follows_id(code_page: u16, s: Seq<u8>)
    ensures
        spec_property(code_page, s) matches Ok((property, rest)) ==> {
            &&& tag_code_of(s) < 0x8000 ==> property.id is None && spec_value(
                property.property_type,
                code_page,
                s.skip(4),
            ) == done(property.value, rest)
            &&& tag_code_of(s) >= 0x8000 ==> (spec_property_id(s.skip(4)) matches Ok((id, after))
                && property.id == Some(id) && spec_value(property.property_type, code_page, after)
                == done(property.value, rest))
        },
{
    if s.len() >= 4 {
        assert(s.skip(2).skip(2) =~= s.skip(4));
    }
}

/// The property set and identifier of a named property: sixteen bytes of
/// the set, a 32-bit word that tells a number (0) from a name (1), and
/// then the 32-bit number, or the name with its length before it and its
/// padding behind it.
pub proof fn lemma_property_id_layout(s: Seq<u8>)
    ensures
        spec_property_id(s) matches Ok(((set, id), rest)) ==> {
            &&& s.len() >= 24
            &&& set == guid_from_le(s.take(16))
            &&& le32(s.skip(16)) == 0 || le32(s.skip(16)) == 1
            &&& le32(s.skip(16)) == 0 ==> id == PropIdView::Number(le32(s.skip(20)) as u32) && rest
                == s.skip(24)
            &&& le32(s.skip(16)) == 1 ==> {
                let length = le32(s.skip(20)) as nat;
                &&& s.len() >= 24 + 2 * (length / 2) + padding(length)
                &&& utf16_text(take_units(s.skip(24), length / 2).unwrap().0) matches Some(name)
                &&& id == PropIdView::String(name)
                &&& rest == s.skip((24 + 2 * (length / 2) + padding(length)) as int)
            }
        },
{
    if s.len() >= 24 {
        assert(s.skip(16).skip(4) =~= s.skip(20));
        assert(s.skip(20).skip(4) =~= s.skip(24));
        assert(s.skip(24).skip(0) =~= s.skip(24));
        let length = le32(s.skip(20)) as nat;
        let units = 2 * (length / 2);
        if s.len() >= 24 + units + padding(length) {
            assert(s.skip(24).skip(units as int).skip(padding(length) as int) =~= s.skip(
                (24 + units + padding(length)) as int,
            ));
        }
    }
}

/// The value of a single-valued type of variable length, where the count
/// is 1, the bytes of the value and of its padding are there, and a
/// UTF-16 text has an even length and is well formed: it is decoded, and
/// what is left starts behind the padding.
pub proof fn lemma_single_value_decodes(type_code: u16, code_page: u16, s: Seq<u8>)
    requires
        is_single_variable(type_code),
        s.len() >= 8,
        le32(s) == 1,
        s.len() >= 8 + le32(s.skip(4)) + padding(le32(s.skip(4)) as nat),
        type_code == 0x001F ==> le32(s.skip(4)) % 2 == 0 && utf16_text(
            take_units(s.skip(8), (le32(s.skip(4)) / 2) as nat).unwrap().0,
        ) is Some,
    ensures
        spec_value(PropType::spec_from_base_type(type_code), code_page, s) matches Ok((value, rest))
            && rest == s.skip(8 + le32(s.skip(4)) + padding(le32(s.skip(4)) as nat)) && value
            == (if type_code == 0x000D {
            PropValueView::Object(s.subrange(8, 8 + le32(s.skip(4))))
        } else if type_code == 0x0102 {
            PropValueView::Binary(s.subrange(8, 8 + le32(s.skip(4))))
        } else if type_code == 0x001E {
            PropValueView::String8(codepage_text(code_page, s.subrange(8, 8 + le32(s.skip(4)))))
        } else {
            PropValueView::String(
                utf16_text(
                    take_units(s.skip(8), (le32(s.skip(4)) / 2) as nat).unwrap().0,
                ).unwrap(),
            )
        }),
{
    let length = le32(s.skip(4)) as nat;
    let s1 = s.skip(4);
    let s2 = s1.skip(4);
    assert(s2 =~= s.skip(8));
    assert(s2.take(length as int) =~= s.subrange(8, (8 + length) as int));
    assert(s2.skip(length as int).skip(padding(length) as int) =~= s.skip(
        (8 + length + padding(length)) as int,
    ));
    if type_code == 0x001F {
        assert(2 * (length / 2) == length);
    }
}

/// A value of a single-valued type of variable length that was decoded
/// had the count 1 and takes eight bytes, the bytes of the value, and the
/// padding to the next multiple of four.
pub proof fn lemma_single_value_advance(type_code: u16, code_page: u16, s: Seq<u8>)
    requires
        is_single_variable(type_code),
    ensures
        spec_value(PropType::spec_from_base_type(type_code), code_page, s) matches Ok((_, rest))
            ==> {
            &&& s.len() >= 8 + le32(s.skip(4)) + padding(le32(s.skip(4)) as nat)
            &&& le32(s) == 1
            &&& rest == s.skip(8 + le32(s.skip(4)) + padding(le32(s.skip(4)) as nat))
        },
{
    if s.len() >= 8 {
        let length = le32(s.skip(4)) as nat;
        let s2 = s.skip(4).skip(4);
        assert(s2 =~= s.skip(8));
        if s.len() >= 8 + length + padding(length) {
            assert(s2.skip(length as int).skip(padding(length) as int) =~= s.skip(
                (8 + length + padding(length)) as int,
            ));
        }
        if type_code == 0x001F && length % 2 == 0 {
            assert(2 * (length / 2) == length);
        }
    }
}

/// A property with a single value of variable length and a tag below
/// `0x8000`, where the count is 1, the bytes of the value and of its
/// padding are there, and a UTF-16 text has an even length and is well
/// formed: it is decoded, and it takes twelve bytes, the bytes of the
/// value, and no more than three bytes of padding to the next multiple of
/// four.
#[verifier::rlimit(30)]
pub proof fn lemma_single_value_property_decodes(code_page: u16, s: Seq<u8>)
    requires
        s.len() >= 12,
        is_single_variable(type_code_of(s)),
        tag_code_of(s) < 0x8000,
        le32(s.skip(4)) == 1,
        s.len() >= single_value_span(le32(s.skip(8)) as nat),
        type_code_of(s) == 0x001F ==> le32(s.skip(8)) % 2 == 0 && utf16_text(
            take_units(s.skip(12), (le32(s.skip(8)) / 2) as nat).unwrap().0,
        ) is Some,
    ensures
        spec_property(code_page, s) matches Ok((property, rest)) && rest == s.skip(
            single_value_span(le32(s.skip(8)) as nat) as int,
        ),
        padding(le32(s.skip(8)) as nat) < 4,
        (le32(s.skip(8)) + padding(le32(s.skip(8)) as nat)) % 4 == 0,
{
    let value = s.skip(4);
    assert(s.skip(2).skip(2) =~= value);
    assert(value.skip(4) =~= s.skip(8));
    assert(value.skip(8) =~= s.skip(12));
    lemma_single_value_decodes(type_code_of(s), code_page, value);
    let length = le32(s.skip(8)) as nat;
    assert(value.skip((8 + length + padding(length)) as int) =~= s.skip(
        single_value_span(length) as int,
    ));
}

/// A decoded property with a single value of variable length and a tag
/// below `0x8000` takes twelve bytes, the bytes of the value, and the
/// padding to the next multiple of four.
pub proof fn lemma_single_value_property_advance(code_page: u16, s: Seq<u8>)
    requires
        is_single_variable(type_code_of(s)),
        tag_code_of(s) < 0x8000,
    ensures
        spec_property(code_page, s) matches Ok((_, rest)) ==> {
            &&& s.len() >= single_value_span(le32(s.skip(8)) as nat)
            &&& le32(s.skip(4)) == 1
            &&& rest == s.skip(single_value_span(le32(s.skip(8)) as nat) as int)
        },
{
    if s.len() >= 4 {
        let value = s.skip(4);
        assert(s.skip(2).skip(2) =~= value);
        lemma_single_value_advance(type_code_of(s), code_page, value);
        if s.len() >= 12 {
            assert(value.skip(4) =~= s.skip(8));
            let length = le32(s.skip(8)) as nat;
            if s.len() >= single_value_span(length) {
                assert(value.skip((8 + length + padding(length)) as int) =~= s.skip(
                    single_value_span(length) as int,
                ));
            }
        }
    }
}

} // verus!
