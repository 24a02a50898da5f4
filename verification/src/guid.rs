//! The 16-byte identifier that names property sets and objects.

use vstd::prelude::*;
use vstd::string::StringExecFns;
use crate::binread::{be16, be32, le16, le32};
use crate::hex::{push_upper_hex, upper_hex};

verus! {

/// A globally unique identifier in its four-field form.
#[derive(Clone, Copy, Debug, Eq, Hash, Ord, PartialEq, PartialOrd)]
pub struct Guid {
    pub data1: u32,
    pub data2: u16,
    pub data3: u16,
    pub data4: [u8; 8],
}

/// The identifier that 16 bytes spell when the three numeric fields are
/// stored least significant byte first.
pub open spec fn guid_from_le(s: Seq<u8>) -> Guid {
    Guid {
        data1: le32(s) as u32,
        data2: le16(s.skip(4)) as u16,
        data3: le16(s.skip(6)) as u16,
        data4: [s[8], s[9], s[10], s[11], s[12], s[13], s[14], s[15]],
    }
}

/// The identifier that 16 bytes spell when the three numeric fields are
/// stored most significant byte first.
pub open spec fn guid_from_be(s: Seq<u8>) -> Guid {
    Guid {
        data1: be32(s) as u32,
        data2: be16(s.skip(4)) as u16,
        data3: be16(s.skip(6)) as u16,
        data4: [s[8], s[9], s[10], s[11], s[12], s[13], s[14], s[15]],
    }
}

/// The canonical text of an identifier: its fields in upper-case
/// hexadecimal, in groups of 8, 4, 4, 4 and 12 digits with hyphens between.
pub open spec fn guid_text(guid: Guid) -> Seq<char> {
    upper_hex(guid.data1 as nat, 8) + seq!['-'] + upper_hex(guid.data2 as nat, 4) + seq!['-']
        + upper_hex(guid.data3 as nat, 4) + seq!['-'] + upper_hex(guid.data4[0] as nat, 2)
        + upper_hex(guid.data4[1] as nat, 2) + seq!['-'] + upper_hex(guid.data4[2] as nat, 2)
        + upper_hex(guid.data4[3] as nat, 2) + upper_hex(guid.data4[4] as nat, 2) + upper_hex(
        guid.data4[5] as nat,
        2,
    ) + upper_hex(guid.data4[6] as nat, 2) + upper_hex(guid.data4[7] as nat, 2)
}

impl Guid {
    /// The identifier in 16 bytes with little-endian numeric fields; `None`
    /// for any other number of bytes.
    pub fn from_le_bytes(bytes: &[u8]) -> (r: Option<Self>)
        ensures
            r == if bytes@.len() == 16 {
                Some(guid_from_le(bytes@))
            } else {
                None
            },
    {
        if bytes.len() != 16 {
            return None;
        }
        let data1: u32 = bytes[0] as u32 + 0x100 * (bytes[1] as u32) + 0x1_0000 * (bytes[2] as u32)
            + 0x100_0000 * (bytes[3] as u32);
        let data2: u16 = bytes[4] as u16 + 0x100 * (bytes[5] as u16);
        let data3: u16 = bytes[6] as u16 + 0x100 * (bytes[7] as u16);
        let data4 = [
            bytes[8],
            bytes[9],
            bytes[10],
            bytes[11],
            bytes[12],
            bytes[13],
            bytes[14],
            bytes[15],
        ];
        Some(Guid { data1, data2, data3, data4 })
    }

    /// The identifier in 16 bytes with big-endian numeric fields; `None` for
    /// any other number of bytes.
    pub fn from_be_bytes(bytes: &[u8]) -> (r: Option<Self>)
        ensures
            r == if bytes@.len() == 16 {
                Some(guid_from_be(bytes@))
            } else {
                None
            },
    {
        if bytes.len() != 16 {
            return None;
        }
        let data1: u32 = 0x100_0000 * (bytes[0] as u32) + 0x1_0000 * (bytes[1] as u32) + 0x100 * (
        bytes[2] as u32) + bytes[3] as u32;
        let data2: u16 = 0x100 * (bytes[4] as u16) + bytes[5] as u16;
        let data3: u16 = 0x100 * (bytes[6] as u16) + bytes[7] as u16;
        let data4 = [
            bytes[8],
            bytes[9],
            bytes[10],
            bytes[11],
            bytes[12],
            bytes[13],
            bytes[14],
            bytes[15],
        ];
        Some(Guid { data1, data2, data3, data4 })
    }

    /// The canonical text of the identifier.
    pub fn to_canonical_string(&self) -> (text: String)
        ensures
            text@ == guid_text(*self),
    {
        proof {
            reveal_strlit("-");
        }
        let mut text = String::new();
        push_upper_hex(&mut text, self.data1 as u64, 8);
        text.append("-");
        push_upper_hex(&mut text, self.data2 as u64, 4);
        text.append("-");
        push_upper_hex(&mut text, self.data3 as u64, 4);
        text.append("-");
        push_upper_hex(&mut text, self.data4[0] as u64, 2);
        push_upper_hex(&mut text, self.data4[1] as u64, 2);
        text.append("-");
        push_upper_hex(&mut text, self.data4[2] as u64, 2);
        push_upper_hex(&mut text, self.data4[3] as u64, 2);
        push_upper_hex(&mut text, self.data4[4] as u64, 2);
        push_upper_hex(&mut text, self.data4[5] as u64, 2);
        push_upper_hex(&mut text, self.data4[6] as u64, 2);
        push_upper_hex(&mut text, self.data4[7] as u64, 2);
        assert("-"@ =~= seq!['-']);
        assert(text@ =~= guid_text(*self));
        text
    }
}

impl Default for Guid {
    /// The identifier whose fields are all zero.
    fn default() -> (guid: Self)
        ensures
            guid == (Guid {
                data1: 0,
                data2: 0,
                data3: 0,
                data4: [0u8, 0u8, 0u8, 0u8, 0u8, 0u8, 0u8, 0u8],
            }),
    {
        Guid { data1: 0, data2: 0, data3: 0, data4: [0, 0, 0, 0, 0, 0, 0, 0] }
    }
}

} // verus!
