//! Places in the source text, and the numerals written there.

use vstd::prelude::*;
use vstd::string::StringSliceAdditionalSpecFns;

verus! {

/// A range of the source text: the bytes from offset `start` up to, not
/// including, offset `end`.
#[derive(Debug, Copy, Clone, PartialEq, Eq, Structural)]
pub struct TextRange {
    pub start: u32,
    pub end: u32,
}

impl TextRange {
    /// The range from `start` up to `end`.
    pub fn new(start: u32, end: u32) -> (r: Self)
        ensures
            r.start == start,
            r.end == end,
    {
        TextRange { start, end }
    }

    /// Whether the range lies in a text of `len` bytes.
    pub open spec fn within(self, len: nat) -> bool {
        self.start <= self.end && self.end <= len
    }
}

/// Something with the range of the source text that it was read from.
#[derive(Debug, Copy, Clone)]
pub struct Located<T> {
    pub range: TextRange,
    pub data: T,
}

impl<T> Located<T> {
    pub fn new(range: TextRange, data: T) -> (l: Self)
        ensures
            l.range == range,
            l.data == data,
    {
        Located { range, data }
    }
}

/// The base of an integer literal.
#[derive(Debug, Copy, Clone, PartialEq, Eq, Structural)]
pub enum Base {
    Bin,
    Dec,
    Hex,
}

impl Base {
    /// The number of digits of the base.
    pub open spec fn radix(self) -> nat {
        match self {
            Base::Bin => 2,
            Base::Dec => 10,
            Base::Hex => 16,
        }
    }

    /// The number of bytes of the prefix that marks the base: `0b` and `0x`
    /// for two and sixteen, nothing for ten.
    pub open spec fn prefix_len(self) -> nat {
        match self {
            Base::Bin | Base::Hex => 2,
            Base::Dec => 0,
        }
    }

    /// Whether `bytes` begins with the prefix of the base.
    pub open spec fn has_prefix(self, bytes: Seq<u8>) -> bool {
        match self {
            Base::Dec => true,
            Base::Bin => bytes.len() >= 2 && bytes[0] == 0x30 && (bytes[1] == 0x62 || bytes[1]
                == 0x42),
            Base::Hex => bytes.len() >= 2 && bytes[0] == 0x30 && (bytes[1] == 0x78 || bytes[1]
                == 0x58),
        }
    }
}

/// The value of a byte as a digit: of `0` to `9`, `a` to `f` and `A` to `F`;
/// `None` for any other byte.
pub open spec fn digit_of(byte: u8) -> Option<nat> {
    if 0x30 <= byte <= 0x39 {
        Some((byte - 0x30) as nat)
    } else if 0x61 <= byte <= 0x66 {
        Some((byte - 0x61 + 10) as nat)
    } else if 0x41 <= byte <= 0x46 {
        Some((byte - 0x41 + 10) as nat)
    } else {
        None
    }
}

/// Whether every byte is a digit of the base.
pub open spec fn all_digits(digits: Seq<u8>, radix: nat) -> bool {
    forall|i: int|
        0 <= i < digits.len() ==> digit_of(#[trigger] digits[i]) is Some && digit_of(digits[i])->0
            < radix
}

/// The number that the digits denote in the base, the most significant
/// first.
pub open spec fn digits_value(digits: Seq<u8>, radix: nat) -> nat
    decreases digits.len(),
{
    if digits.len() == 0 {
        0
    } else {
        digits_value(digits.drop_last(), radix) * radix + digit_of(digits.last()).unwrap_or(0)
    }
}

/// The integer that the bytes of a literal denote: the prefix of the base,
/// then at least one digit of the base and nothing else, denoting a number
/// below 2^32. `None` for anything else.
pub open spec fn literal_value(bytes: Seq<u8>, base: Base) -> Option<u32> {
    let digits = bytes.skip(base.prefix_len() as int);
    if base.has_prefix(bytes) && digits.len() > 0 && all_digits(digits, base.radix())
        && digits_value(digits, base.radix()) <= u32::MAX {
        Some(digits_value(digits, base.radix()) as u32)
    } else {
        None
    }
}

/// A longer numeral denotes no less.
proof fn lemma_digits_value_grows(digits: Seq<u8>, radix: nat, n: int)
    requires
        0 <= n <= digits.len(),
        radix >= 1,
    ensures
        digits_value(digits.take(n), radix) <= digits_value(digits, radix),
    decreases digits.len() - n,
{
    if n < digits.len() {
        lemma_digits_value_grows(digits, radix, n + 1);
        let longer = digits.take(n + 1);
        assert(longer.drop_last() =~= digits.take(n));
        assert(digits_value(longer.drop_last(), radix) * radix >= digits_value(
            longer.drop_last(),
            radix,
        )) by (nonlinear_arith)
            requires
                radix >= 1,
        ;
    } else {
        assert(digits.take(n) =~= digits);
    }
}

/// The value of a byte as a digit.
fn digit(byte: u8) -> (r: Option<u32>)
    ensures
        match r {
            Some(d) => digit_of(byte) == Some(d as nat),
            None => digit_of(byte) is None,
        },
{
    if 0x30 <= byte && byte <= 0x39 {
        Some((byte - 0x30) as u32)
    } else if 0x61 <= byte && byte <= 0x66 {
        Some((byte - 0x61 + 10) as u32)
    } else if 0x41 <= byte && byte <= 0x46 {
        Some((byte - 0x41 + 10) as u32)
    } else {
        None
    }
}

/// The value of the integer literal of the given base that the bytes
/// `range` of `text` are; `None` where the range does not lie in the text
/// or the bytes are no literal of that base below 2^32.
pub open spec fn literal_at(text: Seq<u8>, range: TextRange, base: Base) -> Option<u32> {
    if range.within(text.len()) {
        literal_value(text.subrange(range.start as int, range.end as int), base)
    } else {
        None
    }
}

/// Reads an integer literal of the given base from the bytes `range` of
/// `text`. `None` where the range does not lie in the text or the bytes are
/// no literal of that base below 2^32.
pub fn parse_int(text: &str, range: TextRange, base: Base) -> (r: Option<u32>)
    ensures
        r == literal_at(text.spec_bytes(), range, base),
{
    if range.start <= range.end && range.end as usize <= text.as_bytes().len() {
        parse_within(text, range, base)
    } else {
        None
    }
}

/// Reads an integer literal from a range that lies in the text.
#[verifier::loop_isolation(false)]
fn parse_within(text: &str, range: TextRange, base: Base) -> (r: Option<u32>)
    requires
        range.within(text.spec_bytes().len()),
    ensures
        r == literal_value(
            text.spec_bytes().subrange(range.start as int, range.end as int),
            base,
        ),
{
    let all = text.as_bytes();
    let start = range.start as usize;
    let end = range.end as usize;
    let ghost bytes = all@.subrange(start as int, end as int);
    let (radix, skip): (u32, usize) = match base {
        Base::Dec => (10, 0),
        Base::Bin => {
            if !(end - start >= 2 && all[start] == 0x30 && (all[start + 1] == 0x62 || all[start
                + 1] == 0x42)) {
                return None;
            }
            (2, 2)
        },
        Base::Hex => {
            if !(end - start >= 2 && all[start] == 0x30 && (all[start + 1] == 0x78 || all[start
                + 1] == 0x58)) {
                return None;
            }
            (16, 2)
        },
    };
    assert(base.has_prefix(bytes));
    let ghost digits = bytes.skip(skip as int);
    let first = start + skip;
    if first >= end {
        return None;
    }
    let mut value: u32 = 0;
    let mut i: usize = first;
    proof {
        assert(digits.take(0) =~= Seq::empty());
    }
    while i < end
        invariant
            first <= i <= end,
            end <= all@.len(),
            start + skip == first,
            bytes == all@.subrange(start as int, end as int),
            digits == bytes.skip(skip as int),
            digits.len() == end - first,
            radix == base.radix(),
            all_digits(digits.take(i - first), radix as nat),
            value == digits_value(digits.take(i - first), radix as nat),
        decreases end - i,
    {
        let ghost before = digits.take(i - first);
        let ghost after = digits.take(i - first + 1);
        proof {
            assert(after.drop_last() =~= before);
            assert(after.last() == all@[i as int]);
            assert(digits[i - first] == all@[i as int]);
        }
        let d = match digit(all[i]) {
            Some(d) => d,
            None => {
                assert(!all_digits(digits, radix as nat));
                return None;
            },
        };
        if d >= radix {
            assert(!all_digits(digits, radix as nat));
            return None;
        }
        let next = match value.checked_mul(radix) {
            Some(scaled) => scaled.checked_add(d),
            None => None,
        };
        match next {
            Some(next) => {
                value = next;
            },
            None => {
                proof {
                    assert(digits_value(after, radix as nat) == value * radix + d);
                    assert(digits_value(after, radix as nat) > u32::MAX);
                    lemma_digits_value_grows(digits, radix as nat, i - first + 1);
                }
                return None;
            },
        }
        proof {
            assert forall|k: int| 0 <= k < after.len() implies digit_of(#[trigger] after[k]) is Some
                && digit_of(after[k])->0 < radix by {
                if k < before.len() {
                    assert(after[k] == before[k]);
                }
            }
        }
        i += 1;
    }
    proof {
        assert(digits.take(end - first) =~= digits);
    }
    Some(value)
}

} // verus!
