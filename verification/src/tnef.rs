//! The TNEF stream: a signature, a legacy key, and attributes that each
//! carry a checksum of their payload.

use vstd::prelude::*;
use crate::binread::{
    take_bytes, take_i32_le, take_u16_le, take_u32_le, take_u8, BinaryReader,
};
use crate::error::{end_of_input, TnefReadError, TnefReadErrorView};
use crate::grammar::{
    done, failed, next_bytes, next_i32, next_u16, next_u32, next_u8, Decoded,
};
use crate::tnef_enums::{TnefAttributeId, TnefAttributeLevel};

verus! {

/// The first four bytes of a TNEF stream, read as a little-endian number.
pub const TNEF_SIGNATURE: u32 = 0x223E_9F78;

/// A decoded TNEF stream. The attributes stand in the order of the input.
#[derive(Clone, Debug, PartialEq, Eq)]
pub struct TnefFile {
    pub legacy_key: u16,
    pub attributes: Vec<TnefAttribute>,
}

/// One attribute of a TNEF stream.
#[derive(Clone, Debug, PartialEq, Eq)]
pub struct TnefAttribute {
    pub level: TnefAttributeLevel,
    pub id: TnefAttributeId,
    pub data: Vec<u8>,
    pub checksum: u16,
}

/// An attribute as contracts speak of it.
pub struct TnefAttributeView {
    pub level: TnefAttributeLevel,
    pub id: TnefAttributeId,
    pub data: Seq<u8>,
    pub checksum: u16,
}

/// A TNEF stream as contracts speak of it.
pub struct TnefFileView {
    pub legacy_key: u16,
    pub attributes: Seq<TnefAttributeView>,
}

impl View for TnefAttribute {
    type V = TnefAttributeView;

    open spec fn view(&self) -> TnefAttributeView {
        TnefAttributeView { level: self.level, id: self.id, data: self.data@, checksum: self.checksum }
    }
}

/// The views of the attributes of a list.
pub open spec fn attribute_views(attributes: Seq<TnefAttribute>) -> Seq<TnefAttributeView> {
    Seq::new(attributes.len(), |i: int| attributes[i]@)
}

impl View for TnefFile {
    type V = TnefFileView;

    open spec fn view(&self) -> TnefFileView {
        TnefFileView {
            legacy_key: self.legacy_key,
            attributes: attribute_views(self.attributes@),
        }
    }
}

/// The sum of the bytes of `data`.
pub open spec fn byte_sum(data: Seq<u8>) -> nat
    decreases data.len(),
{
    if data.len() == 0 {
        0
    } else {
        byte_sum(data.drop_last()) + data.last() as nat
    }
}

/// The checksum of a payload: the sum of its bytes, modulo 2^16.
pub open spec fn checksum_of(data: Seq<u8>) -> u16 {
    (byte_sum(data) % 0x1_0000) as u16
}

impl TnefAttributeView {
    /// Whether the checksum is that of the payload.
    pub open spec fn well_formed(self) -> bool {
        self.checksum == checksum_of(self.data)
    }
}

impl TnefFileView {
    /// Whether every attribute carries the checksum of its payload.
    pub open spec fn well_formed(self) -> bool {
        forall|i: int| 0 <= i < self.attributes.len() ==> (#[trigger] self.attributes[i]).well_formed()
    }
}

/// The attribute at the start of `s`: a level, an identifier, a length
/// that is not negative, that many bytes, and their checksum.
pub open spec fn spec_attribute(s: Seq<u8>) -> Decoded<TnefAttributeView> {
    match take_u8(s) {
        None => Err(end_of_input()),
        Some((level, s1)) => match take_u32_le(s1) {
            None => Err(end_of_input()),
            Some((id, s2)) => match take_i32_le(s2) {
                None => Err(end_of_input()),
                Some((length, s3)) => if length < 0 {
                    Err(TnefReadErrorView::LengthConversion { obtained: length })
                } else {
                    match take_bytes(s3, length as nat) {
                        None => Err(end_of_input()),
                        Some((data, s4)) => match take_u16_le(s4) {
                            None => Err(end_of_input()),
                            Some((checksum, s5)) => if checksum != checksum_of(data) {
                                Err(
                                    TnefReadErrorView::ChecksumMismatch {
                                        obtained: checksum,
                                        calculated: checksum_of(data),
                                    },
                                )
                            } else {
                                Ok(
                                    (
                                        TnefAttributeView {
                                            level: TnefAttributeLevel::spec_from_base_type(level),
                                            id: TnefAttributeId::spec_from_base_type(id),
                                            data,
                                            checksum,
                                        },
                                        s5,
                                    ),
                                )
                            },
                        },
                    }
                },
            },
        },
    }
}

/// The attributes that `s` holds from its start to its end.
pub open spec fn spec_attributes(s: Seq<u8>) -> Result<Seq<TnefAttributeView>, TnefReadErrorView>
    decreases s.len(),
{
    if s.len() == 0 {
        Ok(Seq::empty())
    } else {
        match spec_attribute(s) {
            Err(e) => Err(e),
            Ok((attribute, rest)) => match spec_attributes(rest) {
                Err(e) => Err(e),
                Ok(attributes) => Ok(seq![attribute] + attributes),
            },
        }
    }
}

/// What a whole TNEF stream decodes to.
pub open spec fn spec_tnef(s: Seq<u8>) -> Result<TnefFileView, TnefReadErrorView> {
    match take_u32_le(s) {
        None => Err(end_of_input()),
        Some((signature, s1)) => if signature != TNEF_SIGNATURE {
            Err(TnefReadErrorView::Signature { expected: TNEF_SIGNATURE, obtained: signature })
        } else {
            match take_u16_le(s1) {
                None => Err(end_of_input()),
                Some((legacy_key, s2)) => match spec_attributes(s2) {
                    Err(e) => Err(e),
                    Ok(attributes) => Ok(TnefFileView { legacy_key, attributes }),
                },
            }
        },
    }
}

/// The two bytes that spell `value`, least significant byte first.
pub open spec fn le_bytes16(value: u16) -> Seq<u8> {
    seq![(value % 0x100) as u8, (value / 0x100) as u8]
}

/// The four bytes that spell `value`, least significant byte first.
pub open spec fn le_bytes32(value: u32) -> Seq<u8> {
    seq![
        (value % 0x100) as u8,
        (value / 0x100 % 0x100) as u8,
        (value / 0x1_0000 % 0x100) as u8,
        (value / 0x100_0000) as u8,
    ]
}

/// The bytes of an attribute with the given level, identifier, payload and
/// checksum, as the stream lays them out.
pub open spec fn attribute_bytes(level: u8, id: u32, data: Seq<u8>, checksum: u16) -> Seq<u8> {
    seq![level] + le_bytes32(id) + le_bytes32(data.len() as u32) + data + le_bytes16(checksum)
}

/// A 16-bit number is read back from the bytes that spell it.
pub proof fn lemma_le16_read_back(value: u16, rest: Seq<u8>)
    ensures
        take_u16_le(le_bytes16(value) + rest) == Some((value, rest)),
{
    let s = le_bytes16(value) + rest;
    assert(s.skip(2) =~= rest);
    assert(s[0] == (value % 0x100) as u8);
    assert(s[1] == (value / 0x100) as u8);
}

/// A 32-bit number is read back from the bytes that spell it, and as a
/// signed number too where it is no more than the largest one.
pub proof fn lemma_le32_read_back(value: u32, rest: Seq<u8>)
    ensures
        take_u32_le(le_bytes32(value) + rest) == Some((value, rest)),
        value <= i32::MAX ==> take_i32_le(le_bytes32(value) + rest) == Some((value as i32, rest)),
{
    let s = le_bytes32(value) + rest;
    assert(s.skip(4) =~= rest);
    assert(s[0] == (value % 0x100) as u8);
    assert(s[1] == (value / 0x100 % 0x100) as u8);
    assert(s[2] == (value / 0x1_0000 % 0x100) as u8);
    assert(s[3] == (value / 0x100_0000) as u8);
}

/// The checksum decides: an attribute that is laid out with the sum of its
/// payload, modulo 2^16, as its checksum is read back as it was written,
/// and with any other checksum it is refused as a mismatch.
#[verifier::rlimit(30)]
pub proof fn lemma_checksum_decides(level: u8, id: u32, data: Seq<u8>, checksum: u16, rest: Seq<u8>)
    requires
        data.len() <= i32::MAX,
    ensures
        spec_attribute(attribute_bytes(level, id, data, checksum) + rest) == if checksum == checksum_of(
            data,
        ) {
            done(
                TnefAttributeView {
                    level: TnefAttributeLevel::spec_from_base_type(level),
                    id: TnefAttributeId::spec_from_base_type(id),
                    data,
                    checksum,
                },
                rest,
            )
        } else {
            failed::<TnefAttributeView>(
                TnefReadErrorView::ChecksumMismatch {
                    obtained: checksum,
                    calculated: checksum_of(data),
                },
            )
        },
{
    let s = attribute_bytes(level, id, data, checksum) + rest;
    let length = data.len() as u32;
    let s4 = le_bytes16(checksum) + rest;
    let s3 = data + s4;
    let s2 = le_bytes32(length) + s3;
    let s1 = le_bytes32(id) + s2;
    assert(take_u8(s) == Some((level, s1))) by {
        assert(s =~= seq![level] + s1);
        assert(s.skip(1) =~= s1);
    }
    assert(take_u32_le(s1) == Some((id, s2))) by {
        lemma_le32_read_back(id, s2);
    }
    assert(take_i32_le(s2) == Some((length as i32, s3))) by {
        lemma_le32_read_back(length, s3);
    }
    assert(take_bytes(s3, length as nat) == Some((data, s4))) by {
        assert(s3.take(data.len() as int) =~= data);
        assert(s3.skip(data.len() as int) =~= s4);
    }
    assert(take_u16_le(s4) == Some((checksum, rest))) by {
        lemma_le16_read_back(checksum, rest);
    }
    lemma_attribute_of_fields(s, level, s1, id, s2, length as i32, s3, data, s4, checksum, rest);
}

/// What an attribute decodes to, given what its five fields are read as.
proof fn lemma_attribute_of_fields(
    s: Seq<u8>,
    level: u8,
    s1: Seq<u8>,
    id: u32,
    s2: Seq<u8>,
    length: i32,
    s3: Seq<u8>,
    data: Seq<u8>,
    s4: Seq<u8>,
    checksum: u16,
    s5: Seq<u8>,
)
    requires
        take_u8(s) == Some((level, s1)),
        take_u32_le(s1) == Some((id, s2)),
        take_i32_le(s2) == Some((length, s3)),
        length >= 0,
        take_bytes(s3, length as nat) == Some((data, s4)),
        take_u16_le(s4) == Some((checksum, s5)),
    ensures
        spec_attribute(s) == if checksum == checksum_of(data) {
            done(
                TnefAttributeView {
                    level: TnefAttributeLevel::spec_from_base_type(level),
                    id: TnefAttributeId::spec_from_base_type(id),
                    data,
                    checksum,
                },
                s5,
            )
        } else {
            failed::<TnefAttributeView>(
                TnefReadErrorView::ChecksumMismatch {
                    obtained: checksum,
                    calculated: checksum_of(data),
                },
            )
        },
{
}

/// The checksum of `data`.
pub fn checksum(data: &Vec<u8>) -> (sum: u16)
    ensures
        sum == checksum_of(data@),
{
    let mut sum: u16 = 0;
    let mut i: usize = 0;
    while i < data.len()
        invariant
            i <= data.len(),
            sum == checksum_of(data@.take(i as int)),
        decreases data.len() - i,
    {
        let b = data[i];
        proof {
            let before = data@.take(i as int);
            let after = data@.take(i + 1);
            assert(after.drop_last() =~= before);
            assert(after.last() == b);
        }
        sum = sum.wrapping_add(b as u16);
        i = i + 1;
    }
    assert(data@.take(i as int) =~= data@);
    sum
}

/// Reads the attribute that starts at the reader's position.
pub fn read_attribute(reader: &mut BinaryReader<'_>) -> (r: Result<TnefAttribute, TnefReadError>)
    ensures
        match r {
            Ok(attribute) => spec_attribute(old(reader)@) == done(attribute@, final(reader)@)
                && attribute@.well_formed(),
            Err(e) => spec_attribute(old(reader)@) == failed::<TnefAttributeView>(e@)
                && !e@.from_container(),
        },
{
    let level = next_u8(reader)?;
    let id = next_u32(reader)?;
    let length = next_i32(reader)?;
    if length < 0 {
        return Err(TnefReadError::LengthConversion { obtained: length });
    }
    let data = next_bytes(reader, length as usize)?;
    let obtained = next_u16(reader)?;
    let calculated = checksum(&data);
    if obtained != calculated {
        return Err(TnefReadError::ChecksumMismatch { obtained, calculated });
    }
    Ok(
        TnefAttribute {
            level: TnefAttributeLevel::from_base_type(level),
            id: TnefAttributeId::from_base_type(id),
            data,
            checksum: obtained,
        },
    )
}

/// Decodes a whole TNEF stream.
pub fn read_tnef(data: &[u8]) -> (r: Result<TnefFile, TnefReadError>)
    ensures
        match r {
            Ok(file) => spec_tnef(data@) == Ok::<TnefFileView, TnefReadErrorView>(file@)
                && file@.well_formed(),
            Err(e) => spec_tnef(data@) == Err::<TnefFileView, TnefReadErrorView>(e@)
                && !e@.from_container(),
        },
{
    let mut reader = BinaryReader::new(data);
    let signature = next_u32(&mut reader)?;
    if signature != TNEF_SIGNATURE {
        return Err(TnefReadError::Signature { expected: TNEF_SIGNATURE, obtained: signature });
    }
    let legacy_key = next_u16(&mut reader)?;
    let ghost body = reader@;
    let mut attributes: Vec<TnefAttribute> = Vec::new();
    while reader.remaining() > 0
        invariant
            spec_tnef(data@) == match spec_attributes(body) {
                Err(e) => Err(e),
                Ok(all) => Ok(TnefFileView { legacy_key, attributes: all }),
            },
            spec_attributes(body) == match spec_attributes(reader@) {
                Err(e) => Err(e),
                Ok(rest) => Ok(attribute_views(attributes@) + rest),
            },
            forall|i: int| 0 <= i < attributes@.len() ==> (#[trigger] attributes@[i])@.well_formed(),
        decreases reader@.len(),
    {
        let ghost before = attribute_views(attributes@);
        let attribute = read_attribute(&mut reader)?;
        attributes.push(attribute);
        proof {
            assert(attribute_views(attributes@) =~= before.push(attribute@));
            match spec_attributes(reader@) {
                Ok(rest) => {
                    assert(before + (seq![attribute@] + rest) =~= attribute_views(attributes@) + rest);
                },
                Err(_) => {},
            }
        }
    }
    proof {
        assert(attribute_views(attributes@) + Seq::<TnefAttributeView>::empty() =~= attribute_views(
            attributes@,
        ));
    }
    Ok(TnefFile { legacy_key, attributes })
}

} // verus!
