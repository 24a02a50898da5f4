//! The lines of the source of a property enumeration, and the numbers
//! that dotted byte strings spell.

use vstd::prelude::*;
use vstd::string::{StrSliceExecFns, StringExecFns};
use crate::hex::{push_upper_hex, upper_hex};

verus! {

/// A property with a code of its own.
#[derive(Clone, Debug, PartialEq, Eq)]
pub struct DefinedProperty {
    pub value: u16,
    pub name: String,
}

/// A property that shares the code of another.
#[derive(Clone, Debug, PartialEq, Eq)]
pub struct AliasedProperty {
    pub name: String,
    pub target: String,
}

/// The line that declares a member with a code of its own: four spaces,
/// the name, ` = 0x`, the code in four upper-case hexadecimal digits, and
/// a comma.
pub open spec fn spec_defined_variant(name: Seq<char>, value: u16) -> Seq<char> {
    "    "@ + name + " = 0x"@ + upper_hex(value as nat, 4) + ","@
}

/// The line that records a name that shares the code of another: four
/// spaces, `// `, the name, ` = `, and the other name.
pub open spec fn spec_aliased_variant(name: Seq<char>, target: Seq<char>) -> Seq<char> {
    "    // "@ + name + " = "@ + target
}

impl DefinedProperty {
    /// The line that declares this property as a member of the
    /// enumeration.
    pub fn to_enum_variant(&self) -> (line: String)
        ensures
            line@ == spec_defined_variant(self.name@, self.value),
    {
        let mut line = String::from_str("    ");
        line.append(self.name.as_str());
        line.append(" = 0x");
        push_upper_hex(&mut line, self.value as u64, 4);
        line.append(",");
        line
    }
}

impl AliasedProperty {
    /// The line that records this property beside the member whose code
    /// it shares.
    pub fn to_enum_variant(&self) -> (line: String)
        ensures
            line@ == spec_aliased_variant(self.name@, self.target@),
    {
        let mut line = String::from_str("    // ");
        line.append(self.name.as_str());
        line.append(" = ");
        line.append(self.target.as_str());
        line
    }
}

/// Where the last piece of `s` starts: behind its last dot, or at the
/// start of `s` where it holds no dot.
pub open spec fn last_piece_start(s: Seq<char>) -> nat
    decreases s.len(),
{
    if s.len() == 0 {
        0
    } else if s.last() == '.' {
        s.len()
    } else {
        last_piece_start(s.drop_last())
    }
}

/// The pieces of `s` between its dots, in their order. A text without a
/// dot is one piece.
pub open spec fn pieces(s: Seq<char>) -> Seq<Seq<char>>
    decreases s.len(),
    via pieces_terminates
{
    if last_piece_start(s) == 0 {
        seq![s]
    } else {
        pieces(s.take(last_piece_start(s) - 1)).push(s.skip(last_piece_start(s) as int))
    }
}

/// The last piece starts within the text, so the pieces before it are
/// those of a shorter text.
#[via_fn]
proof fn pieces_terminates(s: Seq<char>) {
    lemma_last_piece_start_within(s);
}

/// The texts of `parts`, one after the other.
pub open spec fn joined(parts: Seq<Seq<char>>) -> Seq<char>
    decreases parts.len(),
{
    if parts.len() == 0 {
        Seq::empty()
    } else {
        parts[0] + joined(parts.skip(1))
    }
}

/// The pieces of `s` between its dots, in reverse order, one after the
/// other.
pub open spec fn spec_le_int_string(s: Seq<char>) -> Seq<char> {
    joined(pieces(s).reverse())
}

/// The last piece starts within the text.
pub proof fn lemma_last_piece_start_within(s: Seq<char>)
    ensures
        last_piece_start(s) <= s.len(),
    decreases s.len(),
{
    if s.len() > 0 && s.last() != '.' {
        lemma_last_piece_start_within(s.drop_last());
    }
}

/// The reversed pieces of a text start with its last piece; those of the
/// text before the dot follow.
pub proof fn lemma_last_piece_first(s: Seq<char>)
    ensures
        last_piece_start(s) == 0 ==> spec_le_int_string(s) == s,
        last_piece_start(s) > 0 ==> spec_le_int_string(s) == s.skip(last_piece_start(s) as int)
            + spec_le_int_string(s.take(last_piece_start(s) - 1)),
{
    lemma_last_piece_start_within(s);
    if last_piece_start(s) == 0 {
        assert(seq![s].reverse() =~= seq![s]);
        assert(seq![s].skip(1) =~= Seq::<Seq<char>>::empty());
        assert(joined(Seq::<Seq<char>>::empty()) == Seq::<char>::empty());
        assert(joined(seq![s]) == s + joined(seq![s].skip(1)));
        assert(s + Seq::<char>::empty() =~= s);
    } else {
        let before = pieces(s.take(last_piece_start(s) - 1));
        let last = s.skip(last_piece_start(s) as int);
        let reversed = before.push(last).reverse();
        assert(reversed =~= seq![last] + before.reverse());
        assert(reversed.skip(1) =~= before.reverse());
        assert(reversed[0] == last);
    }
}

/// Where the last piece of the first `end` characters of `s` starts.
fn find_last_piece_start(s: &str, end: usize) -> (start: usize)
    requires
        end <= s@.len(),
    ensures
        start == last_piece_start(s@.take(end as int)),
        start <= end,
{
    let mut i = end;
    while i > 0 && s.get_char(i - 1) != '.'
        invariant
            i <= end <= s@.len(),
            last_piece_start(s@.take(end as int)) == last_piece_start(s@.take(i as int)),
        decreases i,
    {
        proof {
            assert(s@.take(i as int).drop_last() =~= s@.take(i - 1));
        }
        i = i - 1;
    }
    i
}

/// The number that a dotted byte string spells when its first byte is
/// the least significant: the pieces between the dots, in reverse order,
/// joined without a separator.
pub fn byte_string_to_le_int_string(byte_str: &str) -> (number: String)
    ensures
        number@ == spec_le_int_string(byte_str@),
{
    let mut number = String::new();
    let mut end = byte_str.unicode_len();
    proof {
        assert(byte_str@.take(end as int) =~= byte_str@);
        assert(number@ + spec_le_int_string(byte_str@) =~= spec_le_int_string(byte_str@));
    }
    loop
        invariant
            end <= byte_str@.len(),
            spec_le_int_string(byte_str@) == number@ + spec_le_int_string(
                byte_str@.take(end as int),
            ),
        decreases end,
    {
        let ghost before = number@;
        let ghost text = byte_str@.take(end as int);
        let start = find_last_piece_start(byte_str, end);
        proof {
            lemma_last_piece_first(text);
            assert(text.skip(start as int) =~= byte_str@.subrange(start as int, end as int));
        }
        number.append(byte_str.substring_char(start, end));
        if start == 0 {
            proof {
                assert(text.skip(0) =~= text);
            }
            return number;
        }
        proof {
            let rest = spec_le_int_string(text.take(start - 1));
            assert(text.take(start - 1) =~= byte_str@.take(start - 1));
            assert(before + (text.skip(start as int) + rest) =~= number@ + rest);
        }
        end = start - 1;
    }
}

} // verus!
