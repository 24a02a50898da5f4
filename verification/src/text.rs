//! Text decoding: UTF-16, UTF-8, and the Windows code pages of 8-bit text.

use vstd::prelude::*;
use vstd::utf8::{decode_utf8, valid_utf8};

verus! {

/// The text that a sequence of UTF-16 code units spells, or `None` where
/// the sequence is not well-formed UTF-16.
pub uninterp spec fn utf16_text(units: Seq<u16>) -> Option<Seq<char>>;

/// Whether `code_page` is a Windows code page identifier that has a decoder.
pub uninterp spec fn codepage_known(code_page: u16) -> bool;

/// The text that `bytes` spell in the code page `code_page`, after a byte
/// order mark of that encoding is removed and with every malformed sequence
/// replaced by U+FFFD.
pub uninterp spec fn codepage_text(code_page: u16, bytes: Seq<u8>) -> Seq<char>;

/// The text that the decoder of the code page `code_page` yields for
/// `bytes`, after a byte order mark of that encoding is removed, where it
/// comes to the end of `bytes`; `None` where it stops before the end, as it
/// does at a malformed sequence.
pub uninterp spec fn codepage_text_strict(code_page: u16, bytes: Seq<u8>) -> Option<Seq<char>>;

/// The identifier of the UTF-8 code page.
pub const CODEPAGE_UTF8: u16 = 65001;

/// The longest 8-bit text that is decoded in one piece.
pub const MAX_TEXT_LENGTH: usize = usize::MAX / 16;

/// Calls `String::from_utf16`.
///
/// Not proved: that the call fails exactly on the inputs for which
/// `utf16_text` is `None`, and otherwise returns the text that `utf16_text`
/// names. Nothing else is claimed of `utf16_text`.
#[verifier::external_body]
pub(crate) fn string_from_utf16(units: &Vec<u16>) -> (r: Option<String>)
    ensures
        match r {
            Some(text) => utf16_text(units@) == Some(text@),
            None => utf16_text(units@) is None,
        },
{
    String::from_utf16(units).ok()
}

/// Calls `String::from_utf8` on a copy of `bytes`.
///
/// Not proved: that the call succeeds exactly on valid UTF-8 and then
/// returns the characters that the bytes encode.
#[verifier::external_body]
pub(crate) fn string_from_utf8(bytes: &[u8]) -> (r: Option<String>)
    ensures
        match r {
            Some(text) => valid_utf8(bytes@) && text@ == decode_utf8(bytes@),
            None => !valid_utf8(bytes@),
        },
{
    String::from_utf8(bytes.to_vec()).ok()
}

/// Calls `codepage::to_encoding` and, where that finds an encoding,
/// `encoding_rs::Encoding::decode_with_bom_removal` on it.
///
/// Not proved: that an encoding is found exactly for the code pages that
/// `codepage_known` holds of, that UTF-8 (65001) is one of them, and that
/// the owned text of the decoder's result is what `codepage_text` names.
/// The decoder sizes its buffer at three output bytes for each input byte
/// and a few more, rounds that up to a power of two, and may reserve as
/// much again; it panics where one of these sums leaves `usize`. The
/// length bound keeps all of them below half of `usize::MAX`.
#[verifier::external_body]
pub(crate) fn decode_in_codepage(code_page: u16, bytes: &[u8]) -> (r: Option<String>)
    requires
        bytes@.len() <= MAX_TEXT_LENGTH,
    ensures
        r is Some <==> codepage_known(code_page),
        code_page == CODEPAGE_UTF8 ==> r is Some,
        r matches Some(text) ==> text@ == codepage_text(code_page, bytes@),
{
    match codepage::to_encoding(code_page) {
        Some(encoding) => Some(encoding.decode_with_bom_removal(bytes).0.into_owned()),
        None => None,
    }
}

/// Calls `codepage::to_encoding` and, where that finds an encoding, makes
/// a decoder of it with `Encoding::new_decoder_with_bom_removal`, sizes a
/// `String` with `Decoder::max_utf8_buffer_length_without_replacement`, and
/// decodes all of `bytes` into it with
/// `Decoder::decode_to_string_without_replacement`.
///
/// Not proved: that an encoding is found exactly for the code pages that
/// `codepage_known` holds of; and that the decoder's answer is what
/// `codepage_text_strict` names: the text where the decoder comes to the
/// end of the input, `None` where it stops before it. It stops at a
/// malformed sequence; its documentation says that a string of the size
/// asked for cannot fill, but a full string would stop it too, and the
/// contract does not tell the two apart. The length bound keeps the size
/// of the string within `usize`.
#[verifier::external_body]
pub(crate) fn decode_in_codepage_strictly(code_page: u16, bytes: &[u8]) -> (r: Option<
    Option<String>,
>)
    requires
        bytes@.len() <= MAX_TEXT_LENGTH,
    ensures
        r is Some <==> codepage_known(code_page),
        r matches Some(decoded) ==> match decoded {
            Some(text) => codepage_text_strict(code_page, bytes@) == Some(text@),
            None => codepage_text_strict(code_page, bytes@) is None,
        },
{
    let mut decoder = codepage::to_encoding(code_page)?.new_decoder_with_bom_removal();
    let size = decoder.max_utf8_buffer_length_without_replacement(bytes.len())?;
    let mut text = String::with_capacity(size);
    match decoder.decode_to_string_without_replacement(bytes, &mut text, true).0 {
        encoding_rs::DecoderResult::InputEmpty => Some(Some(text)),
        encoding_rs::DecoderResult::OutputFull => Some(None),
        encoding_rs::DecoderResult::Malformed(_, _) => Some(None),
    }
}

/// The encoding of 8-bit text, held as a Windows code page identifier that
/// has a decoder.
#[derive(Clone, Copy, Debug)]
pub struct TextEncoding {
    code_page: u16,
}

impl TextEncoding {
    /// The code page has a decoder.
    #[verifier::type_invariant]
    spec fn decodable(self) -> bool {
        codepage_known(self.code_page)
    }

    /// The code page identifier.
    pub closed spec fn spec_code_page(&self) -> u16 {
        self.code_page
    }

    /// The code page identifier.
    #[verifier::when_used_as_spec(spec_code_page)]
    pub fn code_page(&self) -> (code_page: u16)
        ensures
            code_page == self.spec_code_page(),
            codepage_known(code_page),
    {
        proof {
            use_type_invariant(self);
        }
        self.code_page
    }

    /// The encoding of the code page `code_page`, if it has a decoder.
    /// UTF-8 has one.
    pub fn from_codepage(code_page: u16) -> (r: Option<Self>)
        ensures
            r is Some <==> codepage_known(code_page),
            code_page == CODEPAGE_UTF8 ==> r is Some,
            r matches Some(encoding) ==> encoding.spec_code_page() == code_page,
    {
        let empty: Vec<u8> = Vec::new();
        match decode_in_codepage(code_page, empty.as_slice()) {
            Some(_) => Some(TextEncoding { code_page }),
            None => None,
        }
    }

    /// UTF-8, the encoding in use until a message names another.
    pub fn utf8() -> (encoding: Self)
        ensures
            encoding.spec_code_page() == CODEPAGE_UTF8,
    {
        Self::from_codepage(CODEPAGE_UTF8).unwrap()
    }

    /// The text that `bytes` spell in this encoding, or `None` where the
    /// decoder stops before their end, as it does at a malformed sequence.
    pub fn decode_strictly(&self, bytes: &[u8]) -> (r: Option<String>)
        requires
            bytes@.len() <= MAX_TEXT_LENGTH,
        ensures
            match r {
                Some(text) => codepage_text_strict(self.spec_code_page(), bytes@) == Some(text@),
                None => codepage_text_strict(self.spec_code_page(), bytes@) is None,
            },
    {
        proof {
            use_type_invariant(self);
        }
        match decode_in_codepage_strictly(self.code_page, bytes) {
            Some(decoded) => decoded,
            None => None,
        }
    }

    /// The text that `bytes` spell in this encoding, with every malformed
    /// sequence replaced by U+FFFD.
    pub fn decode(&self, bytes: &[u8]) -> (text: String)
        requires
            bytes@.len() <= MAX_TEXT_LENGTH,
        ensures
            text@ == codepage_text(self.spec_code_page(), bytes@),
    {
        proof {
            use_type_invariant(self);
        }
        match decode_in_codepage(self.code_page, bytes) {
            Some(text) => text,
            None => String::new(),
        }
    }
}

} // verus!
