//! Typed reads of little- and big-endian integers from a byte buffer.

use vstd::prelude::*;

verus! {

/// Why a read did not deliver a value.
#[derive(Debug)]
pub enum IoFailure {
    /// The input ended before the value was complete.
    UnexpectedEof,
    /// The compound file that holds the input could not be read.
    Container(std::io::Error),
}

/// The number that two bytes spell, least significant byte first.
pub open spec fn le16(s: Seq<u8>) -> int
    recommends
        s.len() >= 2,
{
    s[0] as int + 0x100 * (s[1] as int)
}

/// The number that four bytes spell, least significant byte first.
pub open spec fn le32(s: Seq<u8>) -> int
    recommends
        s.len() >= 4,
{
    s[0] as int + 0x100 * (s[1] as int) + 0x1_0000 * (s[2] as int) + 0x100_0000 * (s[3] as int)
}

/// The number that eight bytes spell, least significant byte first.
pub open spec fn le64(s: Seq<u8>) -> int
    recommends
        s.len() >= 8,
{
    le32(s) + 0x1_0000_0000 * le32(s.skip(4))
}

/// The number that two bytes spell, most significant byte first.
pub open spec fn be16(s: Seq<u8>) -> int
    recommends
        s.len() >= 2,
{
    0x100 * (s[0] as int) + s[1] as int
}

/// The number that four bytes spell, most significant byte first.
pub open spec fn be32(s: Seq<u8>) -> int
    recommends
        s.len() >= 4,
{
    0x100_0000 * (s[0] as int) + 0x1_0000 * (s[1] as int) + 0x100 * (s[2] as int) + s[3] as int
}

/// The number that eight bytes spell, most significant byte first.
pub open spec fn be64(s: Seq<u8>) -> int
    recommends
        s.len() >= 8,
{
    0x1_0000_0000 * be32(s) + be32(s.skip(4))
}

/// The two's-complement reading of an unsigned 8-bit number.
pub open spec fn signed8(v: int) -> int {
    if v < 0x80 { v } else { v - 0x100 }
}

/// The two's-complement reading of an unsigned 16-bit number.
pub open spec fn signed16(v: int) -> int {
    if v < 0x8000 { v } else { v - 0x1_0000 }
}

/// The two's-complement reading of an unsigned 32-bit number.
pub open spec fn signed32(v: int) -> int {
    if v < 0x8000_0000 { v } else { v - 0x1_0000_0000 }
}

/// The two's-complement reading of an unsigned 64-bit number.
pub open spec fn signed64(v: int) -> int {
    if v < 0x8000_0000_0000_0000 { v } else { v - 0x1_0000_0000_0000_0000 }
}

/// How many bytes follow a value of `n` bytes to reach the next multiple of four.
pub open spec fn padding(n: nat) -> nat {
    ((4 - n % 4) % 4) as nat
}

/// The first byte of `s` and what follows it, or `None` where `s` is empty.
pub open spec fn take_u8(s: Seq<u8>) -> Option<(u8, Seq<u8>)> {
    if s.len() >= 1 {
        Some((s[0], s.skip(1)))
    } else {
        None
    }
}

/// The first byte of `s` read as a signed number, and what follows it.
pub open spec fn take_i8(s: Seq<u8>) -> Option<(i8, Seq<u8>)> {
    if s.len() >= 1 {
        Some((signed8(s[0] as int) as i8, s.skip(1)))
    } else {
        None
    }
}

/// The unsigned little-endian number in the first 2 bytes of `s`, and what
/// follows them, or `None` where `s` is shorter.
pub open spec fn take_u16_le(s: Seq<u8>) -> Option<(u16, Seq<u8>)> {
    if s.len() >= 2 {
        Some((le16(s) as u16, s.skip(2)))
    } else {
        None
    }
}

/// The signed little-endian number in the first 2 bytes of `s`, and what
/// follows them, or `None` where `s` is shorter.
pub open spec fn take_i16_le(s: Seq<u8>) -> Option<(i16, Seq<u8>)> {
    if s.len() >= 2 {
        Some((signed16(le16(s)) as i16, s.skip(2)))
    } else {
        None
    }
}

/// The unsigned big-endian number in the first 2 bytes of `s`, and what
/// follows them, or `None` where `s` is shorter.
pub open spec fn take_u16_be(s: Seq<u8>) -> Option<(u16, Seq<u8>)> {
    if s.len() >= 2 {
        Some((be16(s) as u16, s.skip(2)))
    } else {
        None
    }
}

/// The signed big-endian number in the first 2 bytes of `s`, and what
/// follows them, or `None` where `s` is shorter.
pub open spec fn take_i16_be(s: Seq<u8>) -> Option<(i16, Seq<u8>)> {
    if s.len() >= 2 {
        Some((signed16(be16(s)) as i16, s.skip(2)))
    } else {
        None
    }
}

/// The unsigned little-endian number in the first 4 bytes of `s`, and what
/// follows them, or `None` where `s` is shorter.
pub open spec fn take_u32_le(s: Seq<u8>) -> Option<(u32, Seq<u8>)> {
    if s.len() >= 4 {
        Some((le32(s) as u32, s.skip(4)))
    } else {
        None
    }
}

/// The signed little-endian number in the first 4 bytes of `s`, and what
/// follows them, or `None` where `s` is shorter.
pub open spec fn take_i32_le(s: Seq<u8>) -> Option<(i32, Seq<u8>)> {
    if s.len() >= 4 {
        Some((signed32(le32(s)) as i32, s.skip(4)))
    } else {
        None
    }
}

/// The unsigned big-endian number in the first 4 bytes of `s`, and what
/// follows them, or `None` where `s` is shorter.
pub open spec fn take_u32_be(s: Seq<u8>) -> Option<(u32, Seq<u8>)> {
    if s.len() >= 4 {
        Some((be32(s) as u32, s.skip(4)))
    } else {
        None
    }
}

/// The signed big-endian number in the first 4 bytes of `s`, and what
/// follows them, or `None` where `s` is shorter.
pub open spec fn take_i32_be(s: Seq<u8>) -> Option<(i32, Seq<u8>)> {
    if s.len() >= 4 {
        Some((signed32(be32(s)) as i32, s.skip(4)))
    } else {
        None
    }
}

/// The unsigned little-endian number in the first 8 bytes of `s`, and what
/// follows them, or `None` where `s` is shorter.
pub open spec fn take_u64_le(s: Seq<u8>) -> Option<(u64, Seq<u8>)> {
    if s.len() >= 8 {
        Some((le64(s) as u64, s.skip(8)))
    } else {
        None
    }
}

/// The signed little-endian number in the first 8 bytes of `s`, and what
/// follows them, or `None` where `s` is shorter.
pub open spec fn take_i64_le(s: Seq<u8>) -> Option<(i64, Seq<u8>)> {
    if s.len() >= 8 {
        Some((signed64(le64(s)) as i64, s.skip(8)))
    } else {
        None
    }
}

/// The unsigned big-endian number in the first 8 bytes of `s`, and what
/// follows them, or `None` where `s` is shorter.
pub open spec fn take_u64_be(s: Seq<u8>) -> Option<(u64, Seq<u8>)> {
    if s.len() >= 8 {
        Some((be64(s) as u64, s.skip(8)))
    } else {
        None
    }
}

/// The signed big-endian number in the first 8 bytes of `s`, and what
/// follows them, or `None` where `s` is shorter.
pub open spec fn take_i64_be(s: Seq<u8>) -> Option<(i64, Seq<u8>)> {
    if s.len() >= 8 {
        Some((signed64(be64(s)) as i64, s.skip(8)))
    } else {
        None
    }
}

/// The first `n` bytes of `s` and what follows them, or `None` where `s`
/// is shorter.
pub open spec fn take_bytes(s: Seq<u8>, n: nat) -> Option<(Seq<u8>, Seq<u8>)> {
    if s.len() >= n {
        Some((s.take(n as int), s.skip(n as int)))
    } else {
        None
    }
}

/// What follows the bytes that pad a value of `n` bytes to a multiple of
/// four, or `None` where `s` is shorter than the padding.
pub open spec fn take_padding(s: Seq<u8>, n: nat) -> Option<Seq<u8>> {
    if s.len() >= padding(n) {
        Some(s.skip(padding(n) as int))
    } else {
        None
    }
}

/// Reinterprets an unsigned 8-bit number as a signed one.
pub fn reinterpret_i8(v: u8) -> (r: i8)
    ensures
        r == signed8(v as int),
{
    if v < 0x80 {
        v as i8
    } else {
        (v as i16 - 0x100) as i8
    }
}

/// Reinterprets an unsigned 16-bit number as a signed one.
pub fn reinterpret_i16(v: u16) -> (r: i16)
    ensures
        r == signed16(v as int),
{
    if v < 0x8000 {
        v as i16
    } else {
        (v as i32 - 0x1_0000) as i16
    }
}

/// Reinterprets an unsigned 32-bit number as a signed one.
pub fn reinterpret_i32(v: u32) -> (r: i32)
    ensures
        r == signed32(v as int),
{
    if v < 0x8000_0000 {
        v as i32
    } else {
        (v as i64 - 0x1_0000_0000) as i32
    }
}

/// Reinterprets an unsigned 64-bit number as a signed one.
pub fn reinterpret_i64(v: u64) -> (r: i64)
    ensures
        r == signed64(v as int),
{
    if v < 0x8000_0000_0000_0000 {
        v as i64
    } else {
        (v as i128 - 0x1_0000_0000_0000_0000) as i64
    }
}

/// A cursor over a byte buffer. Its view is the bytes not read yet.
pub struct BinaryReader<'a> {
    data: &'a [u8],
    pos: usize,
}

impl<'a> View for BinaryReader<'a> {
    type V = Seq<u8>;

    /// The bytes from the reader's position to the end of the buffer.
    closed spec fn view(&self) -> Seq<u8> {
        self.data@.skip(self.pos as int)
    }
}

impl<'a> BinaryReader<'a> {
    /// The position lies within the buffer or at its end.
    #[verifier::type_invariant]
    spec fn in_bounds(self) -> bool {
        self.pos <= self.data@.len()
    }

    /// A reader positioned at the first byte of `data`.
    pub fn new(data: &'a [u8]) -> (reader: Self)
        ensures
            reader@ == data@,
    {
        let reader = BinaryReader { data, pos: 0 };
        assert(reader@ =~= data@);
        reader
    }

    /// The number of bytes not read yet.
    pub fn remaining(&self) -> (n: usize)
        ensures
            n == self@.len(),
    {
        proof {
            use_type_invariant(self);
        }
        self.data.len() - self.pos
    }

    /// Reads the next `n` bytes.
    pub fn read_bytes(&mut self, n: usize) -> (r: Result<Vec<u8>, IoFailure>)
        ensures
            match r {
                Ok(v) => take_bytes(old(self)@, n as nat) == Some((v@, final(self)@)),
                Err(e) => {
                    &&& take_bytes(old(self)@, n as nat) is None
                    &&& e is UnexpectedEof
                    &&& final(self)@ == old(self)@
                },
            },
    {
        proof {
            use_type_invariant(&*self);
        }
        if self.data.len() - self.pos < n {
            return Err(IoFailure::UnexpectedEof);
        }
        let start = self.pos;
        let data = self.data;
        let mut out: Vec<u8> = Vec::new();
        let mut i: usize = 0;
        while i < n
            invariant
                i <= n,
                start + n <= data.len(),
                out@ == data@.subrange(start as int, start + i),
            decreases n - i,
        {
            out.push(data[start + i]);
            i = i + 1;
            assert(out@ =~= data@.subrange(start as int, start + i));
        }
        self.pos = start + n;
        assert(out@ =~= old(self)@.take(n as int));
        assert(self@ =~= old(self)@.skip(n as int));
        Ok(out)
    }

    /// Reads and discards `n` bytes.
    pub fn skip(&mut self, n: usize) -> (r: Result<(), IoFailure>)
        ensures
            match r {
                Ok(_) => old(self)@.len() >= n && final(self)@ == old(self)@.skip(n as int),
                Err(e) => old(self)@.len() < n && e is UnexpectedEof && final(self)@ == old(self)@,
            },
    {
        proof {
            use_type_invariant(&*self);
        }
        if self.data.len() - self.pos < n {
            return Err(IoFailure::UnexpectedEof);
        }
        self.pos = self.pos + n;
        assert(self@ =~= old(self)@.skip(n as int));
        Ok(())
    }

    /// Reads and discards the bytes that pad a value of `bytes_read` bytes
    /// to the next multiple of four.
    pub fn pad_to_4(&mut self, bytes_read: usize) -> (r: Result<(), IoFailure>)
        ensures
            match r {
                Ok(_) => take_padding(old(self)@, bytes_read as nat) == Some(final(self)@),
                Err(e) => {
                    &&& take_padding(old(self)@, bytes_read as nat) is None
                    &&& e is UnexpectedEof
                    &&& final(self)@ == old(self)@
                },
            },
    {
        let pad_count = (4 - bytes_read % 4) % 4;
        self.skip(pad_count)
    }

    /// Reads one byte.
    pub fn read_u8(&mut self) -> (r: Result<u8, IoFailure>)
        ensures
            match r {
                Ok(v) => take_u8(old(self)@) == Some((v, final(self)@)),
                Err(e) => {
                    &&& take_u8(old(self)@) is None
                    &&& e is UnexpectedEof
                    &&& final(self)@ == old(self)@
                },
            },
    {
        proof {
            use_type_invariant(&*self);
        }
        if self.data.len() - self.pos < 1 {
            return Err(IoFailure::UnexpectedEof);
        }
        let v = self.data[self.pos];
        self.pos = self.pos + 1;
        assert(self@ =~= old(self)@.skip(1));
        Ok(v)
    }

    /// Reads one byte as a signed number.
    pub fn read_i8(&mut self) -> (r: Result<i8, IoFailure>)
        ensures
            match r {
                Ok(v) => take_i8(old(self)@) == Some((v, final(self)@)),
                Err(e) => {
                    &&& take_i8(old(self)@) is None
                    &&& e is UnexpectedEof
                    &&& final(self)@ == old(self)@
                },
            },
    {
        match self.read_u8() {
            Ok(v) => Ok(reinterpret_i8(v)),
            Err(e) => Err(e),
        }
    }

    /// Reads one byte, or nothing at the end of the input.
    pub fn read_u8_or_eof(&mut self) -> (r: Result<Option<u8>, IoFailure>)
        ensures
            match r {
                Ok(Some(v)) => take_u8(old(self)@) == Some((v, final(self)@)),
                Ok(None) => old(self)@.len() == 0 && final(self)@ == old(self)@,
                Err(e) => {
                    &&& 0 < old(self)@.len() < 1
                    &&& e is UnexpectedEof
                    &&& final(self)@ == old(self)@
                },
            },
    {
        match self.read_u8() {
            Ok(v) => Ok(Some(v)),
            Err(_) => Ok(None),
        }
    }

    /// Reads one byte as a signed number, or nothing at the end of the input.
    pub fn read_i8_or_eof(&mut self) -> (r: Result<Option<i8>, IoFailure>)
        ensures
            match r {
                Ok(Some(v)) => take_i8(old(self)@) == Some((v, final(self)@)),
                Ok(None) => old(self)@.len() == 0 && final(self)@ == old(self)@,
                Err(e) => {
                    &&& 0 < old(self)@.len() < 1
                    &&& e is UnexpectedEof
                    &&& final(self)@ == old(self)@
                },
            },
    {
        match self.read_u8() {
            Ok(v) => Ok(Some(reinterpret_i8(v))),
            Err(_) => Ok(None),
        }
    }

    /// Reads an unsigned 16-bit little-endian number.
    pub fn read_u16_le(&mut self) -> (r: Result<u16, IoFailure>)
        ensures
            match r {
                Ok(v) => take_u16_le(old(self)@) == Some((v, final(self)@)),
                Err(e) => {
                    &&& take_u16_le(old(self)@) is None
                    &&& e is UnexpectedEof
                    &&& final(self)@ == old(self)@
                },
            },
    {
        proof {
            use_type_invariant(&*self);
        }
        if self.data.len() - self.pos < 2 {
            return Err(IoFailure::UnexpectedEof);
        }
        let p = self.pos;
        let d = self.data;
        let v: u16 = d[p] as u16 + 0x100 * (d[p + 1] as u16);
        self.pos = p + 2;
        assert(self@ =~= old(self)@.skip(2));
        Ok(v)
    }

    /// Reads an unsigned 16-bit little-endian number, or nothing at the end of the input.
    pub fn read_u16_le_or_eof(&mut self) -> (r: Result<Option<u16>, IoFailure>)
        ensures
            match r {
                Ok(Some(v)) => take_u16_le(old(self)@) == Some((v, final(self)@)),
                Ok(None) => old(self)@.len() == 0 && final(self)@ == old(self)@,
                Err(e) => {
                    &&& 0 < old(self)@.len() < 2
                    &&& e is UnexpectedEof
                    &&& final(self)@ == old(self)@
                },
            },
    {
        if self.remaining() == 0 {
            return Ok(None);
        }
        match self.read_u16_le() {
            Ok(v) => Ok(Some(v)),
            Err(e) => Err(e),
        }
    }

    /// Reads a signed 16-bit little-endian number.
    pub fn read_i16_le(&mut self) -> (r: Result<i16, IoFailure>)
        ensures
            match r {
                Ok(v) => take_i16_le(old(self)@) == Some((v, final(self)@)),
                Err(e) => {
                    &&& take_i16_le(old(self)@) is None
                    &&& e is UnexpectedEof
                    &&& final(self)@ == old(self)@
                },
            },
    {
        match self.read_u16_le() {
            Ok(v) => Ok(reinterpret_i16(v)),
            Err(e) => Err(e),
        }
    }

    /// Reads a signed 16-bit little-endian number, or nothing at the end of the input.
    pub fn read_i16_le_or_eof(&mut self) -> (r: Result<Option<i16>, IoFailure>)
        ensures
            match r {
                Ok(Some(v)) => take_i16_le(old(self)@) == Some((v, final(self)@)),
                Ok(None) => old(self)@.len() == 0 && final(self)@ == old(self)@,
                Err(e) => {
                    &&& 0 < old(self)@.len() < 2
                    &&& e is UnexpectedEof
                    &&& final(self)@ == old(self)@
                },
            },
    {
        match self.read_u16_le_or_eof() {
            Ok(Some(v)) => Ok(Some(reinterpret_i16(v))),
            Ok(None) => Ok(None),
            Err(e) => Err(e),
        }
    }

    /// Reads an unsigned 16-bit big-endian number.
    pub fn read_u16_be(&mut self) -> (r: Result<u16, IoFailure>)
        ensures
            match r {
                Ok(v) => take_u16_be(old(self)@) == Some((v, final(self)@)),
                Err(e) => {
                    &&& take_u16_be(old(self)@) is None
                    &&& e is UnexpectedEof
                    &&& final(self)@ == old(self)@
                },
            },
    {
        proof {
            use_type_invariant(&*self);
        }
        if self.data.len() - self.pos < 2 {
            return Err(IoFailure::UnexpectedEof);
        }
        let p = self.pos;
        let d = self.data;
        let v: u16 = 0x100 * (d[p] as u16) + d[p + 1] as u16;
        self.pos = p + 2;
        assert(self@ =~= old(self)@.skip(2));
        Ok(v)
    }

    /// Reads an unsigned 16-bit big-endian number, or nothing at the end of the input.
    pub fn read_u16_be_or_eof(&mut self) -> (r: Result<Option<u16>, IoFailure>)
        ensures
            match r {
                Ok(Some(v)) => take_u16_be(old(self)@) == Some((v, final(self)@)),
                Ok(None) => old(self)@.len() == 0 && final(self)@ == old(self)@,
                Err(e) => {
                    &&& 0 < old(self)@.len() < 2
                    &&& e is UnexpectedEof
                    &&& final(self)@ == old(self)@
                },
            },
    {
        if self.remaining() == 0 {
            return Ok(None);
        }
        match self.read_u16_be() {
            Ok(v) => Ok(Some(v)),
            Err(e) => Err(e),
        }
    }

    /// Reads a signed 16-bit big-endian number.
    pub fn read_i16_be(&mut self) -> (r: Result<i16, IoFailure>)
        ensures
            match r {
                Ok(v) => take_i16_be(old(self)@) == Some((v, final(self)@)),
                Err(e) => {
                    &&& take_i16_be(old(self)@) is None
                    &&& e is UnexpectedEof
                    &&& final(self)@ == old(self)@
                },
            },
    {
        match self.read_u16_be() {
            Ok(v) => Ok(reinterpret_i16(v)),
            Err(e) => Err(e),
        }
    }

    /// Reads a signed 16-bit big-endian number, or nothing at the end of the input.
    pub fn read_i16_be_or_eof(&mut self) -> (r: Result<Option<i16>, IoFailure>)
        ensures
            match r {
                Ok(Some(v)) => take_i16_be(old(self)@) == Some((v, final(self)@)),
                Ok(None) => old(self)@.len() == 0 && final(self)@ == old(self)@,
                Err(e) => {
                    &&& 0 < old(self)@.len() < 2
                    &&& e is UnexpectedEof
                    &&& final(self)@ == old(self)@
                },
            },
    {
        match self.read_u16_be_or_eof() {
            Ok(Some(v)) => Ok(Some(reinterpret_i16(v))),
            Ok(None) => Ok(None),
            Err(e) => Err(e),
        }
    }

    /// Reads an unsigned 32-bit little-endian number.
    pub fn read_u32_le(&mut self) -> (r: Result<u32, IoFailure>)
        ensures
            match r {
                Ok(v) => take_u32_le(old(self)@) == Some((v, final(self)@)),
                Err(e) => {
                    &&& take_u32_le(old(self)@) is None
                    &&& e is UnexpectedEof
                    &&& final(self)@ == old(self)@
                },
            },
    {
        proof {
            use_type_invariant(&*self);
        }
        if self.data.len() - self.pos < 4 {
            return Err(IoFailure::UnexpectedEof);
        }
        let p = self.pos;
        let d = self.data;
        let v: u32 = d[p] as u32 + 0x100 * (d[p + 1] as u32) + 0x1_0000 * (d[p + 2] as u32)
            + 0x100_0000 * (d[p + 3] as u32);
        self.pos = p + 4;
        assert(self@ =~= old(self)@.skip(4));
        Ok(v)
    }

    /// Reads an unsigned 32-bit little-endian number, or nothing at the end of the input.
    pub fn read_u32_le_or_eof(&mut self) -> (r: Result<Option<u32>, IoFailure>)
        ensures
            match r {
                Ok(Some(v)) => take_u32_le(old(self)@) == Some((v, final(self)@)),
                Ok(None) => old(self)@.len() == 0 && final(self)@ == old(self)@,
                Err(e) => {
                    &&& 0 < old(self)@.len() < 4
                    &&& e is UnexpectedEof
                    &&& final(self)@ == old(self)@
                },
            },
    {
        if self.remaining() == 0 {
            return Ok(None);
        }
        match self.read_u32_le() {
            Ok(v) => Ok(Some(v)),
            Err(e) => Err(e),
        }
    }

    /// Reads a signed 32-bit little-endian number.
    pub fn read_i32_le(&mut self) -> (r: Result<i32, IoFailure>)
        ensures
            match r {
                Ok(v) => take_i32_le(old(self)@) == Some((v, final(self)@)),
                Err(e) => {
                    &&& take_i32_le(old(self)@) is None
                    &&& e is UnexpectedEof
                    &&& final(self)@ == old(self)@
                },
            },
    {
        match self.read_u32_le() {
            Ok(v) => Ok(reinterpret_i32(v)),
            Err(e) => Err(e),
        }
    }

    /// Reads a signed 32-bit little-endian number, or nothing at the end of the input.
    pub fn read_i32_le_or_eof(&mut self) -> (r: Result<Option<i32>, IoFailure>)
        ensures
            match r {
                Ok(Some(v)) => take_i32_le(old(self)@) == Some((v, final(self)@)),
                Ok(None) => old(self)@.len() == 0 && final(self)@ == old(self)@,
                Err(e) => {
                    &&& 0 < old(self)@.len() < 4
                    &&& e is UnexpectedEof
                    &&& final(self)@ == old(self)@
                },
            },
    {
        match self.read_u32_le_or_eof() {
            Ok(Some(v)) => Ok(Some(reinterpret_i32(v))),
            Ok(None) => Ok(None),
            Err(e) => Err(e),
        }
    }

    /// Reads an unsigned 32-bit big-endian number.
    pub fn read_u32_be(&mut self) -> (r: Result<u32, IoFailure>)
        ensures
            match r {
                Ok(v) => take_u32_be(old(self)@) == Some((v, final(self)@)),
                Err(e) => {
                    &&& take_u32_be(old(self)@) is None
                    &&& e is UnexpectedEof
                    &&& final(self)@ == old(self)@
                },
            },
    {
        proof {
            use_type_invariant(&*self);
        }
        if self.data.len() - self.pos < 4 {
            return Err(IoFailure::UnexpectedEof);
        }
        let p = self.pos;
        let d = self.data;
        let v: u32 = 0x100_0000 * (d[p] as u32) + 0x1_0000 * (d[p + 1] as u32)
            + 0x100 * (d[p + 2] as u32) + d[p + 3] as u32;
        self.pos = p + 4;
        assert(self@ =~= old(self)@.skip(4));
        Ok(v)
    }

    /// Reads an unsigned 32-bit big-endian number, or nothing at the end of the input.
    pub fn read_u32_be_or_eof(&mut self) -> (r: Result<Option<u32>, IoFailure>)
        ensures
            match r {
                Ok(Some(v)) => take_u32_be(old(self)@) == Some((v, final(self)@)),
                Ok(None) => old(self)@.len() == 0 && final(self)@ == old(self)@,
                Err(e) => {
                    &&& 0 < old(self)@.len() < 4
                    &&& e is UnexpectedEof
                    &&& final(self)@ == old(self)@
                },
            },
    {
        if self.remaining() == 0 {
            return Ok(None);
        }
        match self.read_u32_be() {
            Ok(v) => Ok(Some(v)),
            Err(e) => Err(e),
        }
    }

    /// Reads a signed 32-bit big-endian number.
    pub fn read_i32_be(&mut self) -> (r: Result<i32, IoFailure>)
        ensures
            match r {
                Ok(v) => take_i32_be(old(self)@) == Some((v, final(self)@)),
                Err(e) => {
                    &&& take_i32_be(old(self)@) is None
                    &&& e is UnexpectedEof
                    &&& final(self)@ == old(self)@
                },
            },
    {
        match self.read_u32_be() {
            Ok(v) => Ok(reinterpret_i32(v)),
            Err(e) => Err(e),
        }
    }

    /// Reads a signed 32-bit big-endian number, or nothing at the end of the input.
    pub fn read_i32_be_or_eof(&mut self) -> (r: Result<Option<i32>, IoFailure>)
        ensures
            match r {
                Ok(Some(v)) => take_i32_be(old(self)@) == Some((v, final(self)@)),
                Ok(None) => old(self)@.len() == 0 && final(self)@ == old(self)@,
                Err(e) => {
                    &&& 0 < old(self)@.len() < 4
                    &&& e is UnexpectedEof
                    &&& final(self)@ == old(self)@
                },
            },
    {
        match self.read_u32_be_or_eof() {
            Ok(Some(v)) => Ok(Some(reinterpret_i32(v))),
            Ok(None) => Ok(None),
            Err(e) => Err(e),
        }
    }

    /// Reads an unsigned 64-bit little-endian number.
    pub fn read_u64_le(&mut self) -> (r: Result<u64, IoFailure>)
        ensures
            match r {
                Ok(v) => take_u64_le(old(self)@) == Some((v, final(self)@)),
                Err(e) => {
                    &&& take_u64_le(old(self)@) is None
                    &&& e is UnexpectedEof
                    &&& final(self)@ == old(self)@
                },
            },
    {
        proof {
            use_type_invariant(&*self);
        }
        if self.data.len() - self.pos < 8 {
            return Err(IoFailure::UnexpectedEof);
        }
        let p = self.pos;
        let d = self.data;
        let lo: u64 = d[p] as u64 + 0x100 * (d[p + 1] as u64) + 0x1_0000 * (d[p + 2] as u64)
            + 0x100_0000 * (d[p + 3] as u64);
        let hi: u64 = d[p + 4] as u64 + 0x100 * (d[p + 5] as u64) + 0x1_0000 * (d[p + 6] as u64)
            + 0x100_0000 * (d[p + 7] as u64);
        let v: u64 = lo + 0x1_0000_0000 * hi;
        self.pos = p + 8;
        assert(self@ =~= old(self)@.skip(8));
        Ok(v)
    }

    /// Reads an unsigned 64-bit little-endian number, or nothing at the end of the input.
    pub fn read_u64_le_or_eof(&mut self) -> (r: Result<Option<u64>, IoFailure>)
        ensures
            match r {
                Ok(Some(v)) => take_u64_le(old(self)@) == Some((v, final(self)@)),
                Ok(None) => old(self)@.len() == 0 && final(self)@ == old(self)@,
                Err(e) => {
                    &&& 0 < old(self)@.len() < 8
                    &&& e is UnexpectedEof
                    &&& final(self)@ == old(self)@
                },
            },
    {
        if self.remaining() == 0 {
            return Ok(None);
        }
        match self.read_u64_le() {
            Ok(v) => Ok(Some(v)),
            Err(e) => Err(e),
        }
    }

    /// Reads a signed 64-bit little-endian number.
    pub fn read_i64_le(&mut self) -> (r: Result<i64, IoFailure>)
        ensures
            match r {
                Ok(v) => take_i64_le(old(self)@) == Some((v, final(self)@)),
                Err(e) => {
                    &&& take_i64_le(old(self)@) is None
                    &&& e is UnexpectedEof
                    &&& final(self)@ == old(self)@
                },
            },
    {
        match self.read_u64_le() {
            Ok(v) => Ok(reinterpret_i64(v)),
            Err(e) => Err(e),
        }
    }

    /// Reads a signed 64-bit little-endian number, or nothing at the end of the input.
    pub fn read_i64_le_or_eof(&mut self) -> (r: Result<Option<i64>, IoFailure>)
        ensures
            match r {
                Ok(Some(v)) => take_i64_le(old(self)@) == Some((v, final(self)@)),
                Ok(None) => old(self)@.len() == 0 && final(self)@ == old(self)@,
                Err(e) => {
                    &&& 0 < old(self)@.len() < 8
                    &&& e is UnexpectedEof
                    &&& final(self)@ == old(self)@
                },
            },
    {
        match self.read_u64_le_or_eof() {
            Ok(Some(v)) => Ok(Some(reinterpret_i64(v))),
            Ok(None) => Ok(None),
            Err(e) => Err(e),
        }
    }

    /// Reads an unsigned 64-bit big-endian number.
    pub fn read_u64_be(&mut self) -> (r: Result<u64, IoFailure>)
        ensures
            match r {
                Ok(v) => take_u64_be(old(self)@) == Some((v, final(self)@)),
                Err(e) => {
                    &&& take_u64_be(old(self)@) is None
                    &&& e is UnexpectedEof
                    &&& final(self)@ == old(self)@
                },
            },
    {
        proof {
            use_type_invariant(&*self);
        }
        if self.data.len() - self.pos < 8 {
            return Err(IoFailure::UnexpectedEof);
        }
        let p = self.pos;
        let d = self.data;
        let hi: u64 = 0x100_0000 * (d[p] as u64) + 0x1_0000 * (d[p + 1] as u64)
            + 0x100 * (d[p + 2] as u64) + d[p + 3] as u64;
        let lo: u64 = 0x100_0000 * (d[p + 4] as u64) + 0x1_0000 * (d[p + 5] as u64)
            + 0x100 * (d[p + 6] as u64) + d[p + 7] as u64;
        let v: u64 = 0x1_0000_0000 * hi + lo;
        self.pos = p + 8;
        assert(self@ =~= old(self)@.skip(8));
        Ok(v)
    }

    /// Reads an unsigned 64-bit big-endian number, or nothing at the end of the input.
    pub fn read_u64_be_or_eof(&mut self) -> (r: Result<Option<u64>, IoFailure>)
        ensures
            match r {
                Ok(Some(v)) => take_u64_be(old(self)@) == Some((v, final(self)@)),
                Ok(None) => old(self)@.len() == 0 && final(self)@ == old(self)@,
                Err(e) => {
                    &&& 0 < old(self)@.len() < 8
                    &&& e is UnexpectedEof
                    &&& final(self)@ == old(self)@
                },
            },
    {
        if self.remaining() == 0 {
            return Ok(None);
        }
        match self.read_u64_be() {
            Ok(v) => Ok(Some(v)),
            Err(e) => Err(e),
        }
    }

    /// Reads a signed 64-bit big-endian number.
    pub fn read_i64_be(&mut self) -> (r: Result<i64, IoFailure>)
        ensures
            match r {
                Ok(v) => take_i64_be(old(self)@) == Some((v, final(self)@)),
                Err(e) => {
                    &&& take_i64_be(old(self)@) is None
                    &&& e is UnexpectedEof
                    &&& final(self)@ == old(self)@
                },
            },
    {
        match self.read_u64_be() {
            Ok(v) => Ok(reinterpret_i64(v)),
            Err(e) => Err(e),
        }
    }

    /// Reads a signed 64-bit big-endian number, or nothing at the end of the input.
    pub fn read_i64_be_or_eof(&mut self) -> (r: Result<Option<i64>, IoFailure>)
        ensures
            match r {
                Ok(Some(v)) => take_i64_be(old(self)@) == Some((v, final(self)@)),
                Ok(None) => old(self)@.len() == 0 && final(self)@ == old(self)@,
                Err(e) => {
                    &&& 0 < old(self)@.len() < 8
                    &&& e is UnexpectedEof
                    &&& final(self)@ == old(self)@
                },
            },
    {
        match self.read_u64_be_or_eof() {
            Ok(Some(v)) => Ok(Some(reinterpret_i64(v))),
            Ok(None) => Ok(None),
            Err(e) => Err(e),
        }
    }
    /// Reads a 32-bit little-endian floating point number, as its IEEE 754
    /// bit pattern.
    pub fn read_f32_le(&mut self) -> (r: Result<u32, IoFailure>)
        ensures
            match r {
                Ok(bits) => take_u32_le(old(self)@) == Some((bits, final(self)@)),
                Err(e) => {
                    &&& take_u32_le(old(self)@) is None
                    &&& e is UnexpectedEof
                    &&& final(self)@ == old(self)@
                },
            },
    {
        self.read_u32_le()
    }

    /// Reads a 32-bit little-endian floating point number, as its IEEE 754
    /// bit pattern, or nothing at the end of the input.
    pub fn read_f32_le_or_eof(&mut self) -> (r: Result<Option<u32>, IoFailure>)
        ensures
            match r {
                Ok(Some(bits)) => take_u32_le(old(self)@) == Some((bits, final(self)@)),
                Ok(None) => old(self)@.len() == 0 && final(self)@ == old(self)@,
                Err(e) => {
                    &&& 0 < old(self)@.len() < 4
                    &&& e is UnexpectedEof
                    &&& final(self)@ == old(self)@
                },
            },
    {
        self.read_u32_le_or_eof()
    }

    /// Reads a 32-bit big-endian floating point number, as its IEEE 754
    /// bit pattern.
    pub fn read_f32_be(&mut self) -> (r: Result<u32, IoFailure>)
        ensures
            match r {
                Ok(bits) => take_u32_be(old(self)@) == Some((bits, final(self)@)),
                Err(e) => {
                    &&& take_u32_be(old(self)@) is None
                    &&& e is UnexpectedEof
                    &&& final(self)@ == old(self)@
                },
            },
    {
        self.read_u32_be()
    }

    /// Reads a 32-bit big-endian floating point number, as its IEEE 754
    /// bit pattern, or nothing at the end of the input.
    pub fn read_f32_be_or_eof(&mut self) -> (r: Result<Option<u32>, IoFailure>)
        ensures
            match r {
                Ok(Some(bits)) => take_u32_be(old(self)@) == Some((bits, final(self)@)),
                Ok(None) => old(self)@.len() == 0 && final(self)@ == old(self)@,
                Err(e) => {
                    &&& 0 < old(self)@.len() < 4
                    &&& e is UnexpectedEof
                    &&& final(self)@ == old(self)@
                },
            },
    {
        self.read_u32_be_or_eof()
    }

    /// Reads a 64-bit little-endian floating point number, as its IEEE 754
    /// bit pattern.
    pub fn read_f64_le(&mut self) -> (r: Result<u64, IoFailure>)
        ensures
            match r {
                Ok(bits) => take_u64_le(old(self)@) == Some((bits, final(self)@)),
                Err(e) => {
                    &&& take_u64_le(old(self)@) is None
                    &&& e is UnexpectedEof
                    &&& final(self)@ == old(self)@
                },
            },
    {
        self.read_u64_le()
    }

    /// Reads a 64-bit little-endian floating point number, as its IEEE 754
    /// bit pattern, or nothing at the end of the input.
    pub fn read_f64_le_or_eof(&mut self) -> (r: Result<Option<u64>, IoFailure>)
        ensures
            match r {
                Ok(Some(bits)) => take_u64_le(old(self)@) == Some((bits, final(self)@)),
                Ok(None) => old(self)@.len() == 0 && final(self)@ == old(self)@,
                Err(e) => {
                    &&& 0 < old(self)@.len() < 8
                    &&& e is UnexpectedEof
                    &&& final(self)@ == old(self)@
                },
            },
    {
        self.read_u64_le_or_eof()
    }

    /// Reads a 64-bit big-endian floating point number, as its IEEE 754
    /// bit pattern.
    pub fn read_f64_be(&mut self) -> (r: Result<u64, IoFailure>)
        ensures
            match r {
                Ok(bits) => take_u64_be(old(self)@) == Some((bits, final(self)@)),
                Err(e) => {
                    &&& take_u64_be(old(self)@) is None
                    &&& e is UnexpectedEof
                    &&& final(self)@ == old(self)@
                },
            },
    {
        self.read_u64_be()
    }

    /// Reads a 64-bit big-endian floating point number, as its IEEE 754
    /// bit pattern, or nothing at the end of the input.
    pub fn read_f64_be_or_eof(&mut self) -> (r: Result<Option<u64>, IoFailure>)
        ensures
            match r {
                Ok(Some(bits)) => take_u64_be(old(self)@) == Some((bits, final(self)@)),
                Ok(None) => old(self)@.len() == 0 && final(self)@ == old(self)@,
                Err(e) => {
                    &&& 0 < old(self)@.len() < 8
                    &&& e is UnexpectedEof
                    &&& final(self)@ == old(self)@
                },
            },
    {
        self.read_u64_be_or_eof()
    }
}

} // verus!
