//! Arrays whose elements follow one another without padding.

use vstd::prelude::*;
use crate::binread::{take_i16_le, take_i32_le, take_i64_le, take_u32_le, take_u64_le, BinaryReader};
use crate::error::TnefReadError;
use crate::grammar::{
    done, failed, lemma_repeat_end, lemma_repeat_step, next_i16, next_i32, next_i64, next_u32,
    next_u64, prepend, repeat, taken, Decoded,
};
use crate::guid::Guid;
use crate::property::{read_guid_element, spec_guid_element};

verus! {

/// The decoder of a signed 16-bit number that nothing pads, as a value.
pub open spec fn packed_i16() -> spec_fn(Seq<u8>) -> Decoded<i16> {
    |s: Seq<u8>| taken(take_i16_le(s))
}

/// The decoder of a signed 32-bit number that nothing pads, as a value.
pub open spec fn packed_i32() -> spec_fn(Seq<u8>) -> Decoded<i32> {
    |s: Seq<u8>| taken(take_i32_le(s))
}

/// The decoder of an unsigned 32-bit number that nothing pads, as a value.
pub open spec fn packed_u32() -> spec_fn(Seq<u8>) -> Decoded<u32> {
    |s: Seq<u8>| taken(take_u32_le(s))
}

/// The decoder of a signed 64-bit number that nothing pads, as a value.
pub open spec fn packed_i64() -> spec_fn(Seq<u8>) -> Decoded<i64> {
    |s: Seq<u8>| taken(take_i64_le(s))
}

/// The decoder of an unsigned 64-bit number that nothing pads, as a value.
pub open spec fn packed_u64() -> spec_fn(Seq<u8>) -> Decoded<u64> {
    |s: Seq<u8>| taken(take_u64_le(s))
}

/// The decoder of an identifier, as a value.
pub open spec fn packed_guid() -> spec_fn(Seq<u8>) -> Decoded<Guid> {
    |s: Seq<u8>| spec_guid_element(s)
}

/// Reads `count` signed 16-bit numbers that follow one another.
pub fn read_packed_i16(reader: &mut BinaryReader<'_>, count: usize) -> (r: Result<
    Vec<i16>,
    TnefReadError,
>)
    ensures
        match r {
            Ok(values) => repeat(packed_i16(), count as nat, old(reader)@) == done(
                values@,
                final(reader)@,
            ),
            Err(e) => repeat(packed_i16(), count as nat, old(reader)@) == failed::<Seq<i16>>(e@),
        },
{
    let mut values: Vec<i16> = Vec::new();
    let mut i: usize = 0;
    proof {
        assert(Seq::<i16>::empty() + values@ =~= values@);
        match repeat(packed_i16(), count as nat, reader@) {
            Ok((all, _)) => {
                assert(values@ + all =~= all);
            },
            Err(_) => {},
        }
    }
    while i < count
        invariant
            i <= count,
            repeat(packed_i16(), count as nat, old(reader)@) == prepend(
                values@,
                repeat(packed_i16(), (count - i) as nat, reader@),
            ),
        decreases count - i,
    {
        proof {
            lemma_repeat_step(packed_i16(), (count - i) as nat, reader@, values@);
        }
        let value = next_i16(reader)?;
        values.push(value);
        i = i + 1;
    }
    proof {
        lemma_repeat_end(packed_i16(), reader@, values@);
    }
    Ok(values)
}

/// Reads `count` signed 32-bit numbers that follow one another.
pub fn read_packed_i32(reader: &mut BinaryReader<'_>, count: usize) -> (r: Result<
    Vec<i32>,
    TnefReadError,
>)
    ensures
        match r {
            Ok(values) => repeat(packed_i32(), count as nat, old(reader)@) == done(
                values@,
                final(reader)@,
            ),
            Err(e) => repeat(packed_i32(), count as nat, old(reader)@) == failed::<Seq<i32>>(e@),
        },
{
    let mut values: Vec<i32> = Vec::new();
    let mut i: usize = 0;
    proof {
        assert(Seq::<i32>::empty() + values@ =~= values@);
        match repeat(packed_i32(), count as nat, reader@) {
            Ok((all, _)) => {
                assert(values@ + all =~= all);
            },
            Err(_) => {},
        }
    }
    while i < count
        invariant
            i <= count,
            repeat(packed_i32(), count as nat, old(reader)@) == prepend(
                values@,
                repeat(packed_i32(), (count - i) as nat, reader@),
            ),
        decreases count - i,
    {
        proof {
            lemma_repeat_step(packed_i32(), (count - i) as nat, reader@, values@);
        }
        let value = next_i32(reader)?;
        values.push(value);
        i = i + 1;
    }
    proof {
        lemma_repeat_end(packed_i32(), reader@, values@);
    }
    Ok(values)
}

/// Reads `count` unsigned 32-bit numbers that follow one another.
pub fn read_packed_u32(reader: &mut BinaryReader<'_>, count: usize) -> (r: Result<
    Vec<u32>,
    TnefReadError,
>)
    ensures
        match r {
            Ok(values) => repeat(packed_u32(), count as nat, old(reader)@) == done(
                values@,
                final(reader)@,
            ),
            Err(e) => repeat(packed_u32(), count as nat, old(reader)@) == failed::<Seq<u32>>(e@),
        },
{
    let mut values: Vec<u32> = Vec::new();
    let mut i: usize = 0;
    proof {
        assert(Seq::<u32>::empty() + values@ =~= values@);
        match repeat(packed_u32(), count as nat, reader@) {
            Ok((all, _)) => {
                assert(values@ + all =~= all);
            },
            Err(_) => {},
        }
    }
    while i < count
        invariant
            i <= count,
            repeat(packed_u32(), count as nat, old(reader)@) == prepend(
                values@,
                repeat(packed_u32(), (count - i) as nat, reader@),
            ),
        decreases count - i,
    {
        proof {
            lemma_repeat_step(packed_u32(), (count - i) as nat, reader@, values@);
        }
        let value = next_u32(reader)?;
        values.push(value);
        i = i + 1;
    }
    proof {
        lemma_repeat_end(packed_u32(), reader@, values@);
    }
    Ok(values)
}

/// Reads `count` signed 64-bit numbers that follow one another.
pub fn read_packed_i64(reader: &mut BinaryReader<'_>, count: usize) -> (r: Result<
    Vec<i64>,
    TnefReadError,
>)
    ensures
        match r {
            Ok(values) => repeat(packed_i64(), count as nat, old(reader)@) == done(
                values@,
                final(reader)@,
            ),
            Err(e) => repeat(packed_i64(), count as nat, old(reader)@) == failed::<Seq<i64>>(e@),
        },
{
    let mut values: Vec<i64> = Vec::new();
    let mut i: usize = 0;
    proof {
        assert(Seq::<i64>::empty() + values@ =~= values@);
        match repeat(packed_i64(), count as nat, reader@) {
            Ok((all, _)) => {
                assert(values@ + all =~= all);
            },
            Err(_) => {},
        }
    }
    while i < count
        invariant
            i <= count,
            repeat(packed_i64(), count as nat, old(reader)@) == prepend(
                values@,
                repeat(packed_i64(), (count - i) as nat, reader@),
            ),
        decreases count - i,
    {
        proof {
            lemma_repeat_step(packed_i64(), (count - i) as nat, reader@, values@);
        }
        let value = next_i64(reader)?;
        values.push(value);
        i = i + 1;
    }
    proof {
        lemma_repeat_end(packed_i64(), reader@, values@);
    }
    Ok(values)
}

/// Reads `count` unsigned 64-bit numbers that follow one another.
pub fn read_packed_u64(reader: &mut BinaryReader<'_>, count: usize) -> (r: Result<
    Vec<u64>,
    TnefReadError,
>)
    ensures
        match r {
            Ok(values) => repeat(packed_u64(), count as nat, old(reader)@) == done(
                values@,
                final(reader)@,
            ),
            Err(e) => repeat(packed_u64(), count as nat, old(reader)@) == failed::<Seq<u64>>(e@),
        },
{
    let mut values: Vec<u64> = Vec::new();
    let mut i: usize = 0;
    proof {
        assert(Seq::<u64>::empty() + values@ =~= values@);
        match repeat(packed_u64(), count as nat, reader@) {
            Ok((all, _)) => {
                assert(values@ + all =~= all);
            },
            Err(_) => {},
        }
    }
    while i < count
        invariant
            i <= count,
            repeat(packed_u64(), count as nat, old(reader)@) == prepend(
                values@,
                repeat(packed_u64(), (count - i) as nat, reader@),
            ),
        decreases count - i,
    {
        proof {
            lemma_repeat_step(packed_u64(), (count - i) as nat, reader@, values@);
        }
        let value = next_u64(reader)?;
        values.push(value);
        i = i + 1;
    }
    proof {
        lemma_repeat_end(packed_u64(), reader@, values@);
    }
    Ok(values)
}

/// Reads `count` identifiers that follow one another.
pub fn read_packed_guid(reader: &mut BinaryReader<'_>, count: usize) -> (r: Result<
    Vec<Guid>,
    TnefReadError,
>)
    ensures
        match r {
            Ok(values) => repeat(packed_guid(), count as nat, old(reader)@) == done(
                values@,
                final(reader)@,
            ),
            Err(e) => repeat(packed_guid(), count as nat, old(reader)@) == failed::<Seq<Guid>>(e@),
        },
{
    let mut values: Vec<Guid> = Vec::new();
    let mut i: usize = 0;
    proof {
        assert(Seq::<Guid>::empty() + values@ =~= values@);
        match repeat(packed_guid(), count as nat, reader@) {
            Ok((all, _)) => {
                assert(values@ + all =~= all);
            },
            Err(_) => {},
        }
    }
    while i < count
        invariant
            i <= count,
            repeat(packed_guid(), count as nat, old(reader)@) == prepend(
                values@,
                repeat(packed_guid(), (count - i) as nat, reader@),
            ),
        decreases count - i,
    {
        proof {
            lemma_repeat_step(packed_guid(), (count - i) as nat, reader@, values@);
        }
        let value = read_guid_element(reader)?;
        values.push(value);
        i = i + 1;
    }
    proof {
        lemma_repeat_end(packed_guid(), reader@, values@);
    }
    Ok(values)
}

} // verus!
