//! The decoder of compressed RTF: a 16-byte header, and either the text
//! itself or a stream of literals and back-references into a window of 4096
//! bytes that starts out holding a fixed RTF preamble.

use vstd::prelude::*;
use crate::binread::{be16, le32, take_u16_be, take_u8, BinaryReader, IoFailure};

verus! {

/// The size of the window.
pub const DICTIONARY_CAPACITY: usize = 4096;

/// The length of the text that the window holds before decoding starts.
pub const PRELOAD_LENGTH: usize = 207;

/// The compression type of text that is stored as it is ("MELA").
pub const MAGIC_UNCOMPRESSED: u32 = 0x414C_454D;

/// The compression type of compressed text ("LZFu").
pub const MAGIC_COMPRESSED: u32 = 0x7546_5A4C;

/// The length of the header.
pub const HEADER_LENGTH: usize = 16;

/// Why compressed RTF could not be decoded.
#[derive(Debug)]
pub enum RtfDecodeError {
    /// The input ended inside a literal or a reference.
    Io(IoFailure),
    /// The input is shorter than the header.
    HeaderTooShort { expected: usize, obtained: usize },
    /// The header names a compression type other than the two known ones.
    UnsupportedCompression { compression_type: u32 },
}

/// The text that the window holds before decoding starts:
/// `{\rtf1\ansi\mac\deff0\deftab720{\fonttbl;}{\f0\fnil \froman \fswiss
/// \fmodern \fscript \fdecor MS Sans SerifSymbolArialTimes New
/// RomanCourier{\colortbl\red0\green0\blue0`, a carriage return and a line
/// feed, and `\par \pard\plain\f0\fs20\b\i\u\tab\tx`.
pub open spec fn preload() -> Seq<u8> {
    seq![
        0x7B, 0x5C, 0x72, 0x74, 0x66, 0x31, 0x5C, 0x61, 0x6E, 0x73, 0x69, 0x5C,
        0x6D, 0x61, 0x63, 0x5C, 0x64, 0x65, 0x66, 0x66, 0x30, 0x5C, 0x64, 0x65,
        0x66, 0x74, 0x61, 0x62, 0x37, 0x32, 0x30, 0x7B, 0x5C, 0x66, 0x6F, 0x6E,
        0x74, 0x74, 0x62, 0x6C, 0x3B, 0x7D, 0x7B, 0x5C, 0x66, 0x30, 0x5C, 0x66,
        0x6E, 0x69, 0x6C, 0x20, 0x5C, 0x66, 0x72, 0x6F, 0x6D, 0x61, 0x6E, 0x20,
        0x5C, 0x66, 0x73, 0x77, 0x69, 0x73, 0x73, 0x20, 0x5C, 0x66, 0x6D, 0x6F,
        0x64, 0x65, 0x72, 0x6E, 0x20, 0x5C, 0x66, 0x73, 0x63, 0x72, 0x69, 0x70,
        0x74, 0x20, 0x5C, 0x66, 0x64, 0x65, 0x63, 0x6F, 0x72, 0x20, 0x4D, 0x53,
        0x20, 0x53, 0x61, 0x6E, 0x73, 0x20, 0x53, 0x65, 0x72, 0x69, 0x66, 0x53,
        0x79, 0x6D, 0x62, 0x6F, 0x6C, 0x41, 0x72, 0x69, 0x61, 0x6C, 0x54, 0x69,
        0x6D, 0x65, 0x73, 0x20, 0x4E, 0x65, 0x77, 0x20, 0x52, 0x6F, 0x6D, 0x61,
        0x6E, 0x43, 0x6F, 0x75, 0x72, 0x69, 0x65, 0x72, 0x7B, 0x5C, 0x63, 0x6F,
        0x6C, 0x6F, 0x72, 0x74, 0x62, 0x6C, 0x5C, 0x72, 0x65, 0x64, 0x30, 0x5C,
        0x67, 0x72, 0x65, 0x65, 0x6E, 0x30, 0x5C, 0x62, 0x6C, 0x75, 0x65, 0x30,
        0x0D, 0x0A, 0x5C, 0x70, 0x61, 0x72, 0x20, 0x5C, 0x70, 0x61, 0x72, 0x64,
        0x5C, 0x70, 0x6C, 0x61, 0x69, 0x6E, 0x5C, 0x66, 0x30, 0x5C, 0x66, 0x73,
        0x32, 0x30, 0x5C, 0x62, 0x5C, 0x69, 0x5C, 0x75, 0x5C, 0x74, 0x61, 0x62,
        0x5C, 0x74, 0x78,
    ]
}

/// The window as contracts speak of it.
pub struct DictView {
    pub data: Seq<u8>,
    pub write_pos: nat,
    pub read_pos: nat,
}

impl DictView {
    /// Whether the window has its full size and both cursors lie in it.
    pub open spec fn well_formed(self) -> bool {
        &&& self.data.len() == DICTIONARY_CAPACITY
        &&& self.write_pos < DICTIONARY_CAPACITY
        &&& self.read_pos < DICTIONARY_CAPACITY
    }

    /// The window before decoding starts: the preload, then zeros; the
    /// write cursor behind the preload, the read cursor at the start.
    pub open spec fn initial() -> DictView {
        DictView {
            data: preload() + Seq::new((DICTIONARY_CAPACITY - PRELOAD_LENGTH) as nat, |i: int| 0u8),
            write_pos: PRELOAD_LENGTH as nat,
            read_pos: 0,
        }
    }

    /// The window after `value` is written at the write cursor.
    pub open spec fn write(self, value: u8) -> DictView {
        DictView {
            data: self.data.update(self.write_pos as int, value),
            write_pos: (self.write_pos + 1) % (DICTIONARY_CAPACITY as nat),
            read_pos: self.read_pos,
        }
    }

    /// The byte at the read cursor.
    pub open spec fn current(self) -> u8 {
        self.data[self.read_pos as int]
    }

    /// The window after the read cursor moves on by one.
    pub open spec fn advance(self) -> DictView {
        DictView {
            data: self.data,
            write_pos: self.write_pos,
            read_pos: (self.read_pos + 1) % (DICTIONARY_CAPACITY as nat),
        }
    }

    /// Copies `count` bytes, one at a time, from the read cursor to the
    /// write cursor: the window afterwards and the bytes copied. A byte
    /// written early in the copy may be read later in it.
    pub open spec fn copy(self, count: nat) -> (DictView, Seq<u8>)
        decreases count,
    {
        if count == 0 {
            (self, Seq::empty())
        } else {
            let byte = self.current();
            let (after, bytes) = self.advance().write(byte).copy((count - 1) as nat);
            (after, seq![byte] + bytes)
        }
    }

    /// The window with the read cursor at `offset`.
    pub open spec fn seek(self, offset: nat) -> DictView {
        DictView { data: self.data, write_pos: self.write_pos, read_pos: offset }
    }

    /// What a reference to `offset` with the length field `length` yields:
    /// `length + 2` bytes copied from `offset` on.
    pub open spec fn reference(self, offset: nat, length: nat) -> (DictView, Seq<u8>) {
        self.seek(offset).copy(length + 2)
    }
}

/// Copying leaves the window well formed and yields as many bytes as asked.
pub proof fn lemma_copy_well_formed(dict: DictView, count: nat)
    requires
        dict.well_formed(),
    ensures
        dict.copy(count).0.well_formed(),
        dict.copy(count).1.len() == count,
    decreases count,
{
    if count > 0 {
        lemma_copy_well_formed(dict.advance().write(dict.current()), (count - 1) as nat);
    }
}

/// The window of the decoder.
#[derive(Clone, Debug, PartialEq, Eq)]
pub struct CompressedRtfDict {
    data: Vec<u8>,
    write_pos: usize,
    read_pos: usize,
}

impl View for CompressedRtfDict {
    type V = DictView;

    /// The bytes of the window and its two cursors.
    closed spec fn view(&self) -> DictView {
        DictView { data: self.data@, write_pos: self.write_pos as nat, read_pos: self.read_pos as nat }
    }
}

impl CompressedRtfDict {
    /// Reads the byte at the read cursor and moves the cursor on.
    pub fn read_from_read_pos(&mut self) -> (byte: u8)
        requires
            old(self)@.well_formed(),
        ensures
            final(self)@.well_formed(),
            byte == old(self)@.current(),
            final(self)@ == old(self)@.advance(),
    {
        let byte = self.data[self.read_pos];
        self.read_pos = (self.read_pos + 1) % DICTIONARY_CAPACITY;
        byte
    }

    /// Writes `value` at the write cursor and moves the cursor on.
    pub fn write_at_write_pos(&mut self, value: u8)
        requires
            old(self)@.well_formed(),
        ensures
            final(self)@.well_formed(),
            final(self)@ == old(self)@.write(value),
    {
        let at = self.write_pos;
        self.data.set(at, value);
        self.write_pos = (at + 1) % DICTIONARY_CAPACITY;
    }

    /// Records a literal byte of the output in the window.
    pub fn literal_read(&mut self, value: u8)
        requires
            old(self)@.well_formed(),
        ensures
            final(self)@.well_formed(),
            final(self)@ == old(self)@.write(value),
    {
        self.write_at_write_pos(value);
    }

    /// Whether a reference to `offset` is the one that ends the stream: the
    /// one that points at the write cursor.
    pub fn is_decompression_complete(&self, offset: u16) -> (complete: bool)
        ensures
            complete == (offset as nat == self@.write_pos),
    {
        offset as usize == self.write_pos
    }

    /// Resolves a reference: copies `length + 2` bytes from `offset` on to
    /// the write cursor and returns them.
    pub fn reference_read(&mut self, offset: u16, length: u16) -> (bytes: Vec<u8>)
        requires
            old(self)@.well_formed(),
            offset < DICTIONARY_CAPACITY,
        ensures
            final(self)@.well_formed(),
            final(self)@ == old(self)@.reference(offset as nat, length as nat).0,
            bytes@ == old(self)@.reference(offset as nat, length as nat).1,
            bytes@.len() == length + 2,
    {
        let actual_length: usize = length as usize + 2;
        let mut bytes: Vec<u8> = Vec::new();
        self.read_pos = offset as usize;
        let ghost start = self@;
        let mut i: usize = 0;
        while i < actual_length
            invariant
                i <= actual_length,
                self@.well_formed(),
                start.copy(actual_length as nat) == (
                    self@.copy((actual_length - i) as nat).0,
                    bytes@ + self@.copy((actual_length - i) as nat).1,
                ),
                bytes@.len() == i,
            decreases actual_length - i,
        {
            let ghost before = self@;
            let ghost done = bytes@;
            let byte = self.read_from_read_pos();
            bytes.push(byte);
            self.write_at_write_pos(byte);
            i = i + 1;
            proof {
                let rest = self@.copy((actual_length - i) as nat).1;
                assert(done + (seq![byte] + rest) =~= bytes@ + rest);
            }
        }
        assert(bytes@ + Seq::<u8>::empty() =~= bytes@);
        bytes
    }

    /// The window before decoding starts.
    pub fn new() -> (dict: Self)
        ensures
            dict@ == DictView::initial(),
            dict@.well_formed(),
    {
        let mut data: Vec<u8> = vec![
            0x7B, 0x5C, 0x72, 0x74, 0x66, 0x31, 0x5C, 0x61, 0x6E, 0x73, 0x69, 0x5C,
            0x6D, 0x61, 0x63, 0x5C, 0x64, 0x65, 0x66, 0x66, 0x30, 0x5C, 0x64, 0x65,
            0x66, 0x74, 0x61, 0x62, 0x37, 0x32, 0x30, 0x7B, 0x5C, 0x66, 0x6F, 0x6E,
            0x74, 0x74, 0x62, 0x6C, 0x3B, 0x7D, 0x7B, 0x5C, 0x66, 0x30, 0x5C, 0x66,
            0x6E, 0x69, 0x6C, 0x20, 0x5C, 0x66, 0x72, 0x6F, 0x6D, 0x61, 0x6E, 0x20,
            0x5C, 0x66, 0x73, 0x77, 0x69, 0x73, 0x73, 0x20, 0x5C, 0x66, 0x6D, 0x6F,
            0x64, 0x65, 0x72, 0x6E, 0x20, 0x5C, 0x66, 0x73, 0x63, 0x72, 0x69, 0x70,
            0x74, 0x20, 0x5C, 0x66, 0x64, 0x65, 0x63, 0x6F, 0x72, 0x20, 0x4D, 0x53,
            0x20, 0x53, 0x61, 0x6E, 0x73, 0x20, 0x53, 0x65, 0x72, 0x69, 0x66, 0x53,
            0x79, 0x6D, 0x62, 0x6F, 0x6C, 0x41, 0x72, 0x69, 0x61, 0x6C, 0x54, 0x69,
            0x6D, 0x65, 0x73, 0x20, 0x4E, 0x65, 0x77, 0x20, 0x52, 0x6F, 0x6D, 0x61,
            0x6E, 0x43, 0x6F, 0x75, 0x72, 0x69, 0x65, 0x72, 0x7B, 0x5C, 0x63, 0x6F,
            0x6C, 0x6F, 0x72, 0x74, 0x62, 0x6C, 0x5C, 0x72, 0x65, 0x64, 0x30, 0x5C,
            0x67, 0x72, 0x65, 0x65, 0x6E, 0x30, 0x5C, 0x62, 0x6C, 0x75, 0x65, 0x30,
            0x0D, 0x0A, 0x5C, 0x70, 0x61, 0x72, 0x20, 0x5C, 0x70, 0x61, 0x72, 0x64,
            0x5C, 0x70, 0x6C, 0x61, 0x69, 0x6E, 0x5C, 0x66, 0x30, 0x5C, 0x66, 0x73,
            0x32, 0x30, 0x5C, 0x62, 0x5C, 0x69, 0x5C, 0x75, 0x5C, 0x74, 0x61, 0x62,
            0x5C, 0x74, 0x78,
        ];
        assert(data@ =~= preload());
        let mut i: usize = PRELOAD_LENGTH;
        while i < DICTIONARY_CAPACITY
            invariant
                PRELOAD_LENGTH <= i <= DICTIONARY_CAPACITY,
                data@ == preload() + Seq::new((i - PRELOAD_LENGTH) as nat, |k: int| 0u8),
            decreases DICTIONARY_CAPACITY - i,
        {
            data.push(0u8);
            i = i + 1;
            assert(data@ =~= preload() + Seq::new((i - PRELOAD_LENGTH) as nat, |k: int| 0u8));
        }
        CompressedRtfDict { data, write_pos: PRELOAD_LENGTH, read_pos: 0 }
    }
}

/// How far the items that one control byte announces got.
pub enum Run {
    /// The input ended inside an item.
    Failed,
    /// The reference that ends the stream was met, after this output.
    Ended { output: Seq<u8> },
    /// All items were decoded, with this output; the window and the input
    /// that are left.
    Done { output: Seq<u8>, dict: DictView, rest: Seq<u8> },
}

impl Run {
    /// The run with `bytes` in front of its output.
    pub open spec fn after(self, bytes: Seq<u8>) -> Run {
        match self {
            Run::Failed => Run::Failed,
            Run::Ended { output } => Run::Ended { output: bytes + output },
            Run::Done { output, dict, rest } => Run::Done { output: bytes + output, dict, rest },
        }
    }
}

/// The offset that a reference word names: its upper twelve bits.
pub open spec fn reference_offset(word: u16) -> nat {
    (word / 16) as nat
}

/// The length field of a reference word: its lower four bits.
pub open spec fn reference_length(word: u16) -> nat {
    (word % 16) as nat
}

/// Decodes the next `items` items of a run. The lowest bit of `control`
/// tells what the next item is: 0 a literal byte, 1 a big-endian reference
/// word; the bits above it tell of the items that follow. A reference to
/// the write cursor ends the stream.
pub open spec fn spec_run(dict: DictView, control: nat, items: nat, s: Seq<u8>) -> Run
    decreases items,
{
    if items == 0 {
        Run::Done { output: Seq::empty(), dict, rest: s }
    } else if control % 2 == 0 {
        match take_u8(s) {
            None => Run::Failed,
            Some((literal, rest)) => spec_run(
                dict.write(literal),
                control / 2,
                (items - 1) as nat,
                rest,
            ).after(seq![literal]),
        }
    } else {
        match take_u16_be(s) {
            None => Run::Failed,
            Some((word, rest)) => if reference_offset(word) == dict.write_pos {
                Run::Ended { output: Seq::empty() }
            } else {
                let (copied, bytes) = dict.reference(reference_offset(word), reference_length(word));
                spec_run(copied, control / 2, (items - 1) as nat, rest).after(bytes)
            },
        }
    }
}

/// The text that a compressed body decodes to, or `None` where the input
/// ends inside an item. Each run is a control byte and eight items; the
/// input may end before a control byte.
pub open spec fn spec_body(dict: DictView, s: Seq<u8>) -> Option<Seq<u8>>
    decreases s.len(),
    via spec_body_terminates
{
    match take_u8(s) {
        None => Some(Seq::empty()),
        Some((control, rest)) => match spec_run(dict, control as nat, 8, rest) {
            Run::Failed => None,
            Run::Ended { output } => Some(output),
            Run::Done { output, dict: copied, rest: left } => match spec_body(copied, left) {
                None => None,
                Some(more) => Some(output + more),
            },
        },
    }
}

/// Every run shortens the input, so the runs come to an end.
#[via_fn]
proof fn spec_body_terminates(dict: DictView, s: Seq<u8>) {
    if s.len() >= 1 {
        lemma_run_shortens(dict, s[0] as nat, 8, s.skip(1));
    }
}

/// A run leaves no more input than it found.
pub proof fn lemma_run_shortens(dict: DictView, control: nat, items: nat, s: Seq<u8>)
    ensures
        spec_run(dict, control, items, s) matches Run::Done { rest, .. } ==> rest.len() <= s.len(),
    decreases items,
{
    if items == 0 {
    } else if control % 2 == 0 {
        match take_u8(s) {
            None => {},
            Some((literal, rest)) => {
                lemma_run_shortens(dict.write(literal), control / 2, (items - 1) as nat, rest);
            },
        }
    } else {
        match take_u16_be(s) {
            None => {},
            Some((word, rest)) => {
                let copied = dict.reference(reference_offset(word), reference_length(word)).0;
                lemma_run_shortens(copied, control / 2, (items - 1) as nat, rest);
            },
        }
    }
}

/// The text that a compressed-RTF stream holds.
pub open spec fn spec_compressed_rtf(s: Seq<u8>) -> Result<Seq<u8>, RtfDecodeError> {
    if s.len() < HEADER_LENGTH {
        Err(RtfDecodeError::HeaderTooShort { expected: HEADER_LENGTH, obtained: s.len() as usize })
    } else if le32(s.skip(8)) == MAGIC_UNCOMPRESSED {
        Ok(s.skip(HEADER_LENGTH as int))
    } else if le32(s.skip(8)) != MAGIC_COMPRESSED {
        Err(RtfDecodeError::UnsupportedCompression { compression_type: le32(s.skip(8)) as u32 })
    } else {
        match spec_body(DictView::initial(), s.skip(HEADER_LENGTH as int)) {
            None => Err(RtfDecodeError::Io(IoFailure::UnexpectedEof)),
            Some(text) => Ok(text),
        }
    }
}

/// A run leaves the window well formed.
pub proof fn lemma_run_well_formed(dict: DictView, control: nat, items: nat, s: Seq<u8>)
    requires
        dict.well_formed(),
    ensures
        spec_run(dict, control, items, s) matches Run::Done { dict: copied, .. }
            ==> copied.well_formed(),
    decreases items,
{
    if items == 0 {
    } else if control % 2 == 0 {
        match take_u8(s) {
            None => {},
            Some((literal, rest)) => {
                lemma_run_well_formed(dict.write(literal), control / 2, (items - 1) as nat, rest);
            },
        }
    } else {
        match take_u16_be(s) {
            None => {},
            Some((word, rest)) => {
                if reference_offset(word) != dict.write_pos {
                    lemma_copy_well_formed(
                        dict.seek(reference_offset(word)),
                        reference_length(word) + 2,
                    );
                    let copied = dict.reference(reference_offset(word), reference_length(word)).0;
                    lemma_run_well_formed(copied, control / 2, (items - 1) as nat, rest);
                }
            },
        }
    }
}

/// A reference to the write cursor ends the run at once, with no output
/// of its own, whatever the input holds behind it.
pub proof fn lemma_reference_to_cursor_ends_run(
    dict: DictView,
    control: nat,
    items: nat,
    word: u16,
    s: Seq<u8>,
)
    requires
        items > 0,
        control % 2 == 1,
        s.len() >= 2,
        be16(s) == word,
        reference_offset(word) == dict.write_pos,
    ensures
        spec_run(dict, control, items, s) == (Run::Ended { output: Seq::empty() }),
{
}

/// A run that met the reference that ends the stream ends the text: what
/// the input holds behind the run is not looked at.
pub proof fn lemma_ended_run_ends_text(dict: DictView, s: Seq<u8>)
    requires
        s.len() >= 1,
        spec_run(dict, s[0] as nat, 8, s.skip(1)) is Ended,
    ensures
        spec_body(dict, s) == Some(spec_run(dict, s[0] as nat, 8, s.skip(1))->Ended_output),
{
}

/// A stream whose first item is a reference to the write cursor decodes
/// to the empty text, whatever follows the reference.
pub proof fn lemma_reference_to_cursor_ends(dict: DictView, word: u16, s: Seq<u8>)
    requires
        s.len() >= 3,
        s[0] % 2 == 1,
        be16(s.skip(1)) == word,
        reference_offset(word) == dict.write_pos,
    ensures
        spec_body(dict, s) == Some(Seq::<u8>::empty()),
{
    lemma_reference_to_cursor_ends_run(dict, s[0] as nat, 8, word, s.skip(1));
}

/// Text that is stored as it is comes out as the input behind the header.
pub proof fn lemma_uncompressed_passes_through(s: Seq<u8>)
    requires
        s.len() >= HEADER_LENGTH,
        le32(s.skip(8)) == MAGIC_UNCOMPRESSED,
    ensures
        spec_compressed_rtf(s) == Ok::<Seq<u8>, RtfDecodeError>(s.skip(16)),
{
}

/// Decodes the eight items that follow the control byte `control`,
/// appending their output to `output`. Returns whether the reference that
/// ends the stream was met.
pub fn decode_run(
    dict: &mut CompressedRtfDict,
    reader: &mut BinaryReader<'_>,
    control: u8,
    output: &mut Vec<u8>,
) -> (r: Result<bool, RtfDecodeError>)
    requires
        old(dict)@.well_formed(),
    ensures
        final(dict)@.well_formed(),
        match r {
            Ok(true) => exists|bytes: Seq<u8>|
                spec_run(old(dict)@, control as nat, 8, old(reader)@) == (Run::Ended { output: bytes })
                    && final(output)@ == old(output)@ + bytes,
            Ok(false) => exists|bytes: Seq<u8>|
                spec_run(old(dict)@, control as nat, 8, old(reader)@) == (Run::Done {
                    output: bytes,
                    dict: final(dict)@,
                    rest: final(reader)@,
                }) && final(output)@ == old(output)@ + bytes,
            Err(e) => spec_run(old(dict)@, control as nat, 8, old(reader)@) == Run::Failed && e
                == RtfDecodeError::Io(IoFailure::UnexpectedEof),
        },
{
    let ghost whole = spec_run(dict@, control as nat, 8, reader@);
    let ghost before = output@;
    let ghost mut bytes: Seq<u8> = Seq::empty();
    let mut bits: u8 = control;
    let mut item: u8 = 0;
    assert(before + bytes =~= before);
    while item < 8
        invariant
            item <= 8,
            dict@.well_formed(),
            before == old(output)@,
            whole == spec_run(old(dict)@, control as nat, 8, old(reader)@),
            output@ == before + bytes,
            whole == spec_run(dict@, bits as nat, (8 - item) as nat, reader@).after(bytes),
        decreases 8 - item,
    {
        let ghost bytes_before = bytes;
        if bits % 2 == 0 {
            let literal = match reader.read_u8() {
                Ok(v) => v,
                Err(e) => return Err(RtfDecodeError::Io(e)),
            };
            output.push(literal);
            dict.literal_read(literal);
            proof {
                bytes = bytes.push(literal);
                let next = spec_run(dict@, (bits / 2) as nat, (8 - item - 1) as nat, reader@);
                assert(output@ =~= before + bytes);
                match next {
                    Run::Failed => {},
                    Run::Ended { output: o } => {
                        assert(bytes_before + (seq![literal] + o) =~= bytes + o);
                    },
                    Run::Done { output: o, .. } => {
                        assert(bytes_before + (seq![literal] + o) =~= bytes + o);
                    },
                }
            }
        } else {
            let word = match reader.read_u16_be() {
                Ok(v) => v,
                Err(e) => return Err(RtfDecodeError::Io(e)),
            };
            let length = word % 16;
            let offset = word / 16;
            if dict.is_decompression_complete(offset) {
                proof {
                    assert(bytes + Seq::<u8>::empty() =~= bytes);
                }
                return Ok(true);
            }
            let copied = dict.reference_read(offset, length);
            output.extend_from_slice(copied.as_slice());
            proof {
                bytes = bytes + copied@;
                let next = spec_run(dict@, (bits / 2) as nat, (8 - item - 1) as nat, reader@);
                assert(output@ =~= before + bytes);
                match next {
                    Run::Failed => {},
                    Run::Ended { output: o } => {
                        assert(bytes_before + (copied@ + o) =~= bytes + o);
                    },
                    Run::Done { output: o, .. } => {
                        assert(bytes_before + (copied@ + o) =~= bytes + o);
                    },
                }
            }
        }
        bits = bits / 2;
        item = item + 1;
    }
    proof {
        assert(bytes + Seq::<u8>::empty() =~= bytes);
    }
    Ok(false)
}

/// Reads the four numbers of the header: the size of the stream behind
/// the first of them, the size of the text, the compression type, and the
/// checksum of the body.
pub fn read_header(reader: &mut BinaryReader<'_>) -> (r: Result<(u32, u32, u32, u32), IoFailure>)
    ensures
        match r {
            Ok((compressed_size, raw_size, compression_type, crc)) => {
                &&& old(reader)@.len() >= HEADER_LENGTH
                &&& compressed_size == le32(old(reader)@)
                &&& raw_size == le32(old(reader)@.skip(4))
                &&& compression_type == le32(old(reader)@.skip(8))
                &&& crc == le32(old(reader)@.skip(12))
                &&& final(reader)@ == old(reader)@.skip(HEADER_LENGTH as int)
            },
            Err(e) => old(reader)@.len() < HEADER_LENGTH && e is UnexpectedEof,
        },
{
    let compressed_size = reader.read_u32_le()?;
    let raw_size = reader.read_u32_le()?;
    let compression_type = reader.read_u32_le()?;
    let crc = reader.read_u32_le()?;
    proof {
        assert(old(reader)@.skip(4).skip(4) =~= old(reader)@.skip(8));
        assert(old(reader)@.skip(8).skip(4) =~= old(reader)@.skip(12));
        assert(old(reader)@.skip(12).skip(4) =~= old(reader)@.skip(16));
    }
    Ok((compressed_size, raw_size, compression_type, crc))
}

/// Decodes a compressed-RTF stream to the text that it holds. The sizes
/// and the checksum that the header declares are not held against the
/// stream.
pub fn decode_compressed_rtf(compressed: &[u8]) -> (r: Result<Vec<u8>, RtfDecodeError>)
    ensures
        match r {
            Ok(text) => spec_compressed_rtf(compressed@) == Ok::<Seq<u8>, RtfDecodeError>(text@),
            Err(e) => spec_compressed_rtf(compressed@) == Err::<Seq<u8>, RtfDecodeError>(e),
        },
{
    if compressed.len() < HEADER_LENGTH {
        return Err(
            RtfDecodeError::HeaderTooShort { expected: HEADER_LENGTH, obtained: compressed.len() },
        );
    }
    let mut reader = BinaryReader::new(compressed);
    let (_compressed_size, _raw_size, compression_type, _crc) = match read_header(&mut reader) {
        Ok(header) => header,
        Err(e) => return Err(RtfDecodeError::Io(e)),
    };
    if compression_type == MAGIC_UNCOMPRESSED {
        let count = reader.remaining();
        return match reader.read_bytes(count) {
            Ok(text) => {
                assert(text@ =~= compressed@.skip(16));
                Ok(text)
            },
            Err(e) => Err(RtfDecodeError::Io(e)),
        };
    }
    if compression_type != MAGIC_COMPRESSED {
        return Err(RtfDecodeError::UnsupportedCompression { compression_type });
    }
    let ghost body = reader@;
    let mut dict = CompressedRtfDict::new();
    let mut text: Vec<u8> = Vec::new();
    assert(text@ + Seq::<u8>::empty() =~= text@);
    loop
        invariant
            dict@.well_formed(),
            spec_body(DictView::initial(), body) == match spec_body(dict@, reader@) {
                None => None,
                Some(more) => Some(text@ + more),
            },
            spec_compressed_rtf(compressed@) == match spec_body(DictView::initial(), body) {
                None => Err::<Seq<u8>, RtfDecodeError>(RtfDecodeError::Io(IoFailure::UnexpectedEof)),
                Some(all) => Ok(all),
            },
        decreases reader@.len(),
    {
        let ghost text_before = text@;
        let ghost dict_before = dict@;
        let ghost reader_before = reader@;
        let control = match reader.read_u8_or_eof() {
            Ok(Some(control)) => control,
            Ok(None) => {
                assert(text@ + Seq::<u8>::empty() =~= text@);
                return Ok(text);
            },
            Err(e) => return Err(RtfDecodeError::Io(e)),
        };
        proof {
            lemma_run_shortens(dict@, control as nat, 8, reader@);
        }
        let ended = decode_run(&mut dict, &mut reader, control, &mut text)?;
        if ended {
            return Ok(text);
        }
        proof {
            let run = spec_run(dict_before, control as nat, 8, reader_before.skip(1));
            match spec_body(dict@, reader@) {
                None => {},
                Some(more) => {
                    assert(text_before + (run->Done_output + more) =~= text@ + more);
                },
            }
        }
    }
}

} // verus!
