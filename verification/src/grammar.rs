//! The building blocks from which the wire formats are stated: a decoder
//! maps the bytes at hand to a value and the bytes that follow it, or to
//! the error that ends decoding.

use vstd::prelude::*;
use crate::binread::{
    le16, padding, take_bytes, take_i16_le, take_i32_le, take_i64_le, take_padding, take_u16_le,
    take_u32_le, take_u64_le, take_u8, BinaryReader,
};
use crate::error::{end_of_input, TnefReadError, TnefReadErrorView};

verus! {

/// What a decoder makes of the bytes at hand.
pub type Decoded<T> = Result<(T, Seq<u8>), TnefReadErrorView>;

/// The outcome of a decoder that yields `value` and leaves `rest`.
pub open spec fn done<T>(value: T, rest: Seq<u8>) -> Decoded<T> {
    Ok((value, rest))
}

/// The outcome of a decoder that ends with `error`.
pub open spec fn failed<T>(error: TnefReadErrorView) -> Decoded<T> {
    Err(error)
}

/// A value that was read, or the end of the input in its place.
pub open spec fn taken<T>(value: Option<(T, Seq<u8>)>) -> Decoded<T> {
    match value {
        None => Err(end_of_input()),
        Some(pair) => Ok(pair),
    }
}

/// A value that was read, followed by the padding of a value of `width`
/// bytes.
pub open spec fn padded<T>(taken: Option<(T, Seq<u8>)>, width: nat) -> Decoded<T> {
    match taken {
        None => Err(end_of_input()),
        Some((value, rest)) => match take_padding(rest, width) {
            None => Err(end_of_input()),
            Some(after) => Ok((value, after)),
        },
    }
}

/// The first `count` little-endian 16-bit units of `s` and what follows
/// them, or `None` where `s` is shorter.
pub open spec fn take_units(s: Seq<u8>, count: nat) -> Option<(Seq<u16>, Seq<u8>)> {
    if s.len() >= 2 * count {
        Some((Seq::new(count, |i: int| le16(s.skip(2 * i)) as u16), s.skip(2 * count as int)))
    } else {
        None
    }
}

/// The values `first`, followed by what `more` holds.
pub open spec fn prepend<T>(first: Seq<T>, more: Decoded<Seq<T>>) -> Decoded<Seq<T>> {
    match more {
        Err(e) => Err(e),
        Ok((values, rest)) => Ok((first + values, rest)),
    }
}

/// `count` values in a row, each decoded by `element`; the first error ends
/// the row.
pub open spec fn repeat<T>(
    element: spec_fn(Seq<u8>) -> Decoded<T>,
    count: nat,
    s: Seq<u8>,
) -> Decoded<Seq<T>>
    decreases count,
{
    if count == 0 {
        Ok((Seq::empty(), s))
    } else {
        match element(s) {
            Err(e) => Err(e),
            Ok((value, rest)) => prepend(seq![value], repeat(element, (count - 1) as nat, rest)),
        }
    }
}

/// One more element moves from the row that is still to come to the values
/// that were decoded before.
pub proof fn lemma_repeat_step<T>(
    element: spec_fn(Seq<u8>) -> Decoded<T>,
    count: nat,
    s: Seq<u8>,
    first: Seq<T>,
)
    requires
        count > 0,
    ensures
        prepend(first, repeat(element, count, s)) == match element(s) {
            Err(e) => failed::<Seq<T>>(e),
            Ok((value, rest)) => prepend(first.push(value), repeat(element, (count - 1) as nat, rest)),
        },
{
    match element(s) {
        Err(e) => {},
        Ok((value, rest)) => {
            match repeat(element, (count - 1) as nat, rest) {
                Err(e) => {},
                Ok((values, after)) => {
                    assert(first + (seq![value] + values) =~= first.push(value) + values);
                },
            }
        },
    }
}

/// A row with nothing left to come holds the values that were decoded
/// before.
pub proof fn lemma_repeat_end<T>(element: spec_fn(Seq<u8>) -> Decoded<T>, s: Seq<u8>, first: Seq<T>)
    ensures
        prepend(first, repeat(element, 0, s)) == done(first, s),
{
    assert(first + Seq::<T>::empty() =~= first);
}

/// Whether a decoder that succeeded left no more than it found in `s`.
pub open spec fn shortens<T>(outcome: Decoded<T>, s: Seq<u8>) -> bool {
    outcome matches Ok((_, rest)) ==> rest.len() <= s.len()
}

/// A row of elements that each leave no more input than they find leaves
/// no more input than it finds.
pub proof fn lemma_repeat_shortens<T>(element: spec_fn(Seq<u8>) -> Decoded<T>, count: nat, s: Seq<u8>)
    requires
        forall|x: Seq<u8>| shortens(#[trigger] element(x), x),
    ensures
        shortens(repeat(element, count, s), s),
    decreases count,
{
    if count > 0 {
        match element(s) {
            Err(e) => {},
            Ok((value, rest)) => {
                assert(shortens(element(s), s));
                lemma_repeat_shortens(element, (count - 1) as nat, rest);
            },
        }
    }
}

/// Whether `rest` is what remains of `s` after a number of bytes that is a
/// multiple of four.
pub open spec fn aligned_rest(s: Seq<u8>, rest: Seq<u8>) -> bool {
    &&& rest.len() <= s.len()
    &&& (s.len() - rest.len()) % 4 == 0
    &&& rest == s.skip(s.len() - rest.len())
}

/// Whether a decoder that succeeded took a multiple of four bytes of `s`.
pub open spec fn aligned<T>(outcome: Decoded<T>, s: Seq<u8>) -> bool {
    outcome matches Ok((_, rest)) ==> aligned_rest(s, rest)
}

/// A row of elements that each take a multiple of four bytes takes a
/// multiple of four bytes.
pub proof fn lemma_repeat_aligned<T>(element: spec_fn(Seq<u8>) -> Decoded<T>, count: nat, s: Seq<u8>)
    requires
        forall|x: Seq<u8>| aligned(#[trigger] element(x), x),
    ensures
        aligned(repeat(element, count, s), s),
        repeat(element, count, s) matches Ok((values, _)) ==> values.len() == count,
    decreases count,
{
    if count == 0 {
        assert(s.skip(0) =~= s);
    } else {
        match element(s) {
            Err(e) => {},
            Ok((value, rest)) => {
                assert(aligned(element(s), s));
                lemma_repeat_aligned(element, (count - 1) as nat, rest);
                match repeat(element, (count - 1) as nat, rest) {
                    Err(e) => {},
                    Ok((values, after)) => {
                        assert(after =~= s.skip(s.len() - after.len()));
                    },
                }
            },
        }
    }
}

/// A value of `width` bytes and its padding take a multiple of four bytes.
pub proof fn lemma_padded_aligned(s: Seq<u8>, width: nat, rest: Seq<u8>)
    requires
        s.len() >= width,
        take_padding(s.skip(width as int), width) == Some(rest),
    ensures
        aligned_rest(s, rest),
        rest == s.skip((width + padding(width)) as int),
{
    assert(rest =~= s.skip((width + padding(width)) as int));
}

/// Reads one byte.
pub(crate) fn next_u8(reader: &mut BinaryReader<'_>) -> (r: Result<u8, TnefReadError>)
    ensures
        match r {
            Ok(v) => taken(take_u8(old(reader)@)) == done(v, final(reader)@),
            Err(e) => taken(take_u8(old(reader)@)) == failed::<u8>(e@),
        },
{
    match reader.read_u8() {
        Ok(v) => Ok(v),
        Err(e) => Err(TnefReadError::Io(e)),
    }
}

/// Reads an unsigned 16-bit little-endian number.
pub(crate) fn next_u16(reader: &mut BinaryReader<'_>) -> (r: Result<u16, TnefReadError>)
    ensures
        match r {
            Ok(v) => taken(take_u16_le(old(reader)@)) == done(v, final(reader)@),
            Err(e) => taken(take_u16_le(old(reader)@)) == failed::<u16>(e@),
        },
{
    match reader.read_u16_le() {
        Ok(v) => Ok(v),
        Err(e) => Err(TnefReadError::Io(e)),
    }
}

/// Reads a signed 16-bit little-endian number.
pub(crate) fn next_i16(reader: &mut BinaryReader<'_>) -> (r: Result<i16, TnefReadError>)
    ensures
        match r {
            Ok(v) => taken(take_i16_le(old(reader)@)) == done(v, final(reader)@),
            Err(e) => taken(take_i16_le(old(reader)@)) == failed::<i16>(e@),
        },
{
    match reader.read_i16_le() {
        Ok(v) => Ok(v),
        Err(e) => Err(TnefReadError::Io(e)),
    }
}

/// Reads an unsigned 32-bit little-endian number.
pub(crate) fn next_u32(reader: &mut BinaryReader<'_>) -> (r: Result<u32, TnefReadError>)
    ensures
        match r {
            Ok(v) => taken(take_u32_le(old(reader)@)) == done(v, final(reader)@),
            Err(e) => taken(take_u32_le(old(reader)@)) == failed::<u32>(e@),
        },
{
    match reader.read_u32_le() {
        Ok(v) => Ok(v),
        Err(e) => Err(TnefReadError::Io(e)),
    }
}

/// Reads a signed 32-bit little-endian number.
pub(crate) fn next_i32(reader: &mut BinaryReader<'_>) -> (r: Result<i32, TnefReadError>)
    ensures
        match r {
            Ok(v) => taken(take_i32_le(old(reader)@)) == done(v, final(reader)@),
            Err(e) => taken(take_i32_le(old(reader)@)) == failed::<i32>(e@),
        },
{
    match reader.read_i32_le() {
        Ok(v) => Ok(v),
        Err(e) => Err(TnefReadError::Io(e)),
    }
}

/// Reads an unsigned 64-bit little-endian number.
pub(crate) fn next_u64(reader: &mut BinaryReader<'_>) -> (r: Result<u64, TnefReadError>)
    ensures
        match r {
            Ok(v) => taken(take_u64_le(old(reader)@)) == done(v, final(reader)@),
            Err(e) => taken(take_u64_le(old(reader)@)) == failed::<u64>(e@),
        },
{
    match reader.read_u64_le() {
        Ok(v) => Ok(v),
        Err(e) => Err(TnefReadError::Io(e)),
    }
}

/// Reads a signed 64-bit little-endian number.
pub(crate) fn next_i64(reader: &mut BinaryReader<'_>) -> (r: Result<i64, TnefReadError>)
    ensures
        match r {
            Ok(v) => taken(take_i64_le(old(reader)@)) == done(v, final(reader)@),
            Err(e) => taken(take_i64_le(old(reader)@)) == failed::<i64>(e@),
        },
{
    match reader.read_i64_le() {
        Ok(v) => Ok(v),
        Err(e) => Err(TnefReadError::Io(e)),
    }
}

/// Reads the next `n` bytes.
pub(crate) fn next_bytes(reader: &mut BinaryReader<'_>, n: usize) -> (r: Result<
    Vec<u8>,
    TnefReadError,
>)
    ensures
        match r {
            Ok(v) => taken(take_bytes(old(reader)@, n as nat)) == done(v@, final(reader)@),
            Err(e) => taken(take_bytes(old(reader)@, n as nat)) == failed::<Seq<u8>>(e@),
        },
{
    match reader.read_bytes(n) {
        Ok(v) => Ok(v),
        Err(e) => Err(TnefReadError::Io(e)),
    }
}

/// Reads the padding that follows a value of `width` bytes.
pub(crate) fn next_padding(reader: &mut BinaryReader<'_>, width: usize) -> (r: Result<
    (),
    TnefReadError,
>)
    ensures
        match r {
            Ok(_) => take_padding(old(reader)@, width as nat) == Some(final(reader)@),
            Err(e) => take_padding(old(reader)@, width as nat) is None && e@ == end_of_input(),
        },
{
    match reader.pad_to_4(width) {
        Ok(_) => Ok(()),
        Err(e) => Err(TnefReadError::Io(e)),
    }
}

/// Reads `count` little-endian 16-bit units.
pub(crate) fn next_units(reader: &mut BinaryReader<'_>, count: usize) -> (r: Result<
    Vec<u16>,
    TnefReadError,
>)
    ensures
        match r {
            Ok(v) => taken(take_units(old(reader)@, count as nat)) == done(v@, final(reader)@),
            Err(e) => taken(take_units(old(reader)@, count as nat)) == failed::<Seq<u16>>(e@),
        },
{
    let ghost start = reader@;
    if reader.remaining() / 2 < count {
        return Err(TnefReadError::Io(crate::binread::IoFailure::UnexpectedEof));
    }
    let mut units: Vec<u16> = Vec::new();
    let mut i: usize = 0;
    while i < count
        invariant
            i <= count,
            start.len() >= 2 * count,
            reader@ == start.skip(2 * i as int),
            units@ == Seq::new(i as nat, |k: int| le16(start.skip(2 * k)) as u16),
        decreases count - i,
    {
        let unit = match reader.read_u16_le() {
            Ok(v) => v,
            Err(e) => return Err(TnefReadError::Io(e)),
        };
        units.push(unit);
        i = i + 1;
        proof {
            assert(reader@ =~= start.skip(2 * i as int));
            assert(units@ =~= Seq::new(i as nat, |k: int| le16(start.skip(2 * k)) as u16));
        }
    }
    Ok(units)
}

} // verus!
