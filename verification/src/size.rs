//! Validation of a requested table size.
//!
//! A table is generated from a single positive integer, the sample count.
//! The count reaches the generator as text, and a malformed or non-positive
//! count must fail the generation step outright rather than be silently
//! replaced. The parser here accepts exactly the decimal digit strings whose
//! value fits the platform's `usize` and is at least one, and returns that
//! value; everything else is rejected, and the caller fails loudly.

use vstd::prelude::*;

verus! {

/// A decimal digit, `'0'` through `'9'`.
pub open spec fn is_digit(c: char) -> bool {
    48 <= c as u32 <= 57
}

/// The numeric value of a decimal digit.
pub open spec fn digit_value(c: char) -> int {
    c as u32 - 48
}

/// Every character of `s` is a decimal digit.
pub open spec fn all_digits(s: Seq<char>) -> bool {
    forall|i: int| 0 <= i < s.len() ==> is_digit(#[trigger] s[i])
}

/// The value of a digit string read in base ten; leading zeros carry no
/// weight, and the empty string reads as zero.
pub open spec fn decimal_value(s: Seq<char>) -> int
    decreases s.len(),
{
    if s.len() == 0 {
        0
    } else {
        10 * decimal_value(s.drop_last()) + digit_value(s.last())
    }
}

/// A digit string's value is never negative.
pub proof fn lemma_decimal_value_nonneg(s: Seq<char>)
    requires
        all_digits(s),
    ensures
        decimal_value(s) >= 0,
    decreases s.len(),
{
    if s.len() > 0 {
        assert(all_digits(s.drop_last()));
        lemma_decimal_value_nonneg(s.drop_last());
    }
}

/// Reading more digits never shrinks the value: a prefix of a digit string
/// reads at most what the whole string reads.
pub proof fn lemma_decimal_value_prefix_le(s: Seq<char>, i: int)
    requires
        all_digits(s),
        0 <= i <= s.len(),
    ensures
        decimal_value(s.subrange(0, i)) <= decimal_value(s),
    decreases s.len() - i,
{
    if i == s.len() {
        assert(s.subrange(0, i) =~= s);
    } else {
        lemma_decimal_value_prefix_le(s, i + 1);
        let shorter = s.subrange(0, i);
        let longer = s.subrange(0, i + 1);
        assert(longer.drop_last() =~= shorter);
        assert(all_digits(shorter));
        lemma_decimal_value_nonneg(shorter);
        assert(is_digit(longer.last()));
    }
}

/// Parse a table size: `Some(n)` exactly when `s` is a non-empty string of
/// decimal digits whose value `n` is positive and fits a `usize`; `None`
/// otherwise. A size of zero is rejected: a table must hold at least one
/// sample for the engine's normalisation to be defined.
pub fn parse_table_size(s: &str) -> (r: Option<usize>)
    ensures
        r is Some <==> (s@.len() > 0 && all_digits(s@) && 1 <= decimal_value(s@)
            <= usize::MAX),
        r matches Some(n) ==> n == decimal_value(s@),
{
    let n_chars = s.unicode_len();
    if n_chars == 0 {
        return None;
    }
    let mut value: usize = 0;
    let mut i: usize = 0;
    while i < n_chars
        invariant
            0 <= i <= n_chars,
            n_chars == s@.len(),
            all_digits(s@.subrange(0, i as int)),
            value == decimal_value(s@.subrange(0, i as int)),
        decreases n_chars - i,
    {
        let c = s.get_char(i);
        let u = c as u32;
        if u < 48 || u > 57 {
            assert(!is_digit(s@[i as int]));
            return None;
        }
        let d = (u - 48) as usize;
        let scaled = match value.checked_mul(10) {
            Some(v) => v,
            None => {
                proof {
                    overflow_means_no_fit(s@, i as int);
                }
                return None;
            },
        };
        let grown = match scaled.checked_add(d) {
            Some(v) => v,
            None => {
                proof {
                    overflow_means_no_fit(s@, i as int);
                }
                return None;
            },
        };
        proof {
            assert(s@.subrange(0, i + 1).drop_last() =~= s@.subrange(0, i as int));
        }
        value = grown;
        i = i + 1;
    }
    proof {
        assert(s@.subrange(0, n_chars as int) =~= s@);
    }
    if value == 0 {
        None
    } else {
        Some(value)
    }
}

/// When the digits read so far already exceed `usize::MAX` with the digit at
/// `i` appended, no reading of the whole string fits either.
proof fn overflow_means_no_fit(s: Seq<char>, i: int)
    requires
        0 <= i < s.len(),
        all_digits(s.subrange(0, i)),
        is_digit(s[i]),
        10 * decimal_value(s.subrange(0, i)) + digit_value(s[i]) > usize::MAX,
    ensures
        !(all_digits(s) && decimal_value(s) <= usize::MAX),
{
    if all_digits(s) {
        lemma_decimal_value_prefix_le(s, i + 1);
        assert(s.subrange(0, i + 1).drop_last() =~= s.subrange(0, i));
        assert(s.subrange(0, i + 1).last() == s[i]);
    }
}

} // verus!
