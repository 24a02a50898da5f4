//! Decoders for Outlook messages stored as TNEF streams or as
//! compound-file ".msg" containers, with the MAPI property decoder and the
//! compressed-RTF decompressor that both share.
//!
//! [`message::read_message`] reads a message from either container.
//! [`tnef::read_tnef`] frames the attributes of a TNEF stream and checks
//! their checksums; [`property::decode_properties`] decodes the property
//! lists in their payloads. [`cfb_msg::read_cfb_msg`] reads the property
//! streams of a compound file. [`rtf::decode_compressed_rtf`] decompresses
//! the RTF body that a message may carry. [`fast_transfer::parse_message`]
//! decodes the markers and properties of a fast-transfer stream, whose
//! values are laid out without padding. [`enum_source`] writes the lines
//! of the source of a property enumeration.
//!
//! Every exported function is verified against its contract. The
//! contracts are stated over the `spec_*` functions of each module, which
//! define the wire formats over sequences of bytes. The calls into `cfb`,
//! `codepage` and `encoding_rs`, and two text conversions of the standard
//! library, are made through private wrappers whose contracts are taken on
//! trust; the comment above each says what is not proved.

pub mod binread;
pub mod cfb_msg;
pub mod container;
pub mod enum_source;
pub mod error;
pub mod fast_transfer;
pub mod grammar;
pub mod guid;
pub mod hex;
pub mod mail;
pub mod message;
pub mod packed;
pub mod prop_tag;
pub mod prop_type;
pub mod prop_value;
pub mod property;
pub mod property_layout;
pub mod rtf;
pub mod text;
pub mod tnef;
pub mod tnef_enums;

pub use crate::binread::BinaryReader;
pub use crate::guid::Guid;
pub use crate::prop_tag::PropTag;
pub use crate::prop_type::PropType;
pub use crate::prop_value::PropValue;
pub use crate::tnef_enums::{TnefAttributeId, TnefAttributeLevel};
