//! Decimal identifiers: what a run of digits denotes, and how it is read.

use vstd::prelude::*;
use crate::text::chars_of;

verus! {

/// Whether `c` is one of the ten decimal digits `0` to `9`.
pub open spec fn is_digit(c: char) -> bool {
    '0' <= c && c <= '9'
}

/// The number that the digit `c` stands for; 0 for any other character.
pub open spec fn digit_value(c: char) -> nat {
    if is_digit(c) {
        (c as u32 - '0' as u32) as nat
    } else {
        0
    }
}

/// Whether every character of `s` is a decimal digit.
pub open spec fn all_digits(s: Seq<char>) -> bool {
    forall|i: int| 0 <= i < s.len() ==> is_digit(#[trigger] s[i])
}

/// The number that `s` denotes when read as a decimal numeral, most
/// significant digit first. Unbounded: no width is assumed.
pub open spec fn decimal_value(s: Seq<char>) -> nat
    decreases s.len(),
{
    if s.len() == 0 {
        0
    } else {
        10 * decimal_value(s.drop_last()) + digit_value(s.last())
    }
}

/// Whether `s` is a numeral that names an identifier: at least one
/// character, decimal digits only, and a value that fits in 64 bits.
pub open spec fn is_id_numeral(s: Seq<char>) -> bool {
    s.len() > 0 && all_digits(s) && decimal_value(s) <= u64::MAX
}

/// The identifier that `s` names, if it names one.
pub open spec fn decimal_id(s: Seq<char>) -> Option<u64> {
    if is_id_numeral(s) {
        Some(decimal_value(s) as u64)
    } else {
        None
    }
}

/// Reading more digits never makes the value smaller: a prefix of a numeral
/// denotes at most what the whole numeral denotes.
pub proof fn lemma_prefix_value_bounded(s: Seq<char>, k: int)
    requires
        0 <= k <= s.len(),
    ensures
        decimal_value(s.take(k)) <= decimal_value(s),
    decreases s.len(),
{
    if k == s.len() {
        assert(s.take(k) =~= s);
    } else {
        assert(s.drop_last().take(k) =~= s.take(k));
        lemma_prefix_value_bounded(s.drop_last(), k);
    }
}

/// Reads the characters `chars[from..to]` as an identifier.
pub(crate) fn parse_id_in(chars: &[char], from: usize, to: usize) -> (id: Option<u64>)
    requires
        from <= to <= chars@.len(),
    ensures
        id == decimal_id(chars@.subrange(from as int, to as int)),
{
    let ghost numeral = chars@.subrange(from as int, to as int);
    if from == to {
        return None;
    }
    let mut value: u64 = 0;
    let mut i: usize = from;
    while i < to
        invariant
            from <= i <= to <= chars@.len(),
            numeral == chars@.subrange(from as int, to as int),
            all_digits(numeral.take(i - from)),
            value == decimal_value(numeral.take(i - from)),
        decreases to - i,
    {
        let c = chars[i];
        let ghost read = numeral.take(i - from + 1);
        proof {
            assert(numeral[i - from] == c);
            assert(read.drop_last() =~= numeral.take(i - from));
            assert(read.last() == c);
            lemma_prefix_value_bounded(numeral, i - from + 1);
        }
        if c < '0' || c > '9' {
            return None;
        }
        let digit: u64 = (c as u32 - '0' as u32) as u64;
        let shifted = match value.checked_mul(10) {
            Some(shifted) => shifted,
            None => {
                return None;
            },
        };
        value = match shifted.checked_add(digit) {
            Some(sum) => sum,
            None => {
                return None;
            },
        };
        i += 1;
    }
    proof {
        assert(numeral.take(to - from) =~= numeral);
    }
    Some(value)
}

/// Reads `text` as an identifier: `Some` exactly when `text` is a non-empty
/// run of decimal digits whose value fits in 64 bits.
pub fn parse_id(text: &str) -> (id: Option<u64>)
    ensures
        id == decimal_id(text@),
{
    let chars = chars_of(text);
    let id = parse_id_in(chars.as_slice(), 0, chars.len());
    proof {
        assert(chars@.subrange(0, chars@.len() as int) =~= text@);
    }
    id
}

} // verus!
