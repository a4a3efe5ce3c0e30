//! Decimal counts.

use vstd::prelude::*;
use crate::error::Error;
use crate::text::{all_space, is_space, lemma_trim_end_padded, lemma_trim_spans, lemma_trim_start_padded, leading_spaces, trim, trim_range};

verus! {

/// Whether `b` is an ASCII decimal digit.
pub open spec fn is_digit(b: u8) -> bool {
    48 <= b && b <= 57
}

/// Whether `s` holds decimal digits only.
pub open spec fn all_digits(s: Seq<u8>) -> bool {
    forall|i: int| 0 <= i < s.len() ==> is_digit(#[trigger] s[i])
}

/// The number a digit stands for.
pub open spec fn digit_value(b: u8) -> nat {
    if is_digit(b) {
        (b - 48) as nat
    } else {
        0
    }
}

/// The number that a string of decimal digits denotes.
pub open spec fn decimal_value(s: Seq<u8>) -> nat
    decreases s.len(),
{
    if s.len() == 0 {
        0
    } else {
        decimal_value(s.drop_last()) * 10 + digit_value(s.last())
    }
}

/// The count that a header value denotes: the value without its surrounding
/// whitespace must be a non-empty string of decimal digits whose number fits
/// a `usize`.
pub open spec fn count_of(text: Seq<u8>) -> Result<usize, Error> {
    let t = trim(text);
    if t.len() > 0 && all_digits(t) && decimal_value(t) <= usize::MAX {
        Ok(decimal_value(t) as usize)
    } else {
        Err(Error::InvalidCount)
    }
}

/// A prefix of a digit string denotes no more than the whole string.
pub proof fn lemma_prefix_value(s: Seq<u8>, k: int)
    requires
        0 <= k <= s.len(),
    ensures
        decimal_value(s.subrange(0, k)) <= decimal_value(s),
    decreases s.len(),
{
    if k == s.len() {
        assert(s.subrange(0, k) =~= s);
    } else {
        lemma_prefix_value(s.drop_last(), k);
        assert(s.drop_last().subrange(0, k) =~= s.subrange(0, k));
    }
}

/// The decimal digits of `n`, without leading zeros.
pub open spec fn decimal_digits(n: nat) -> Seq<u8>
    decreases n,
{
    if n < 10 {
        seq![(48 + n) as u8]
    } else {
        decimal_digits(n / 10).push((48 + n % 10) as u8)
    }
}

/// The digits of a number are digits, and denote it.
pub proof fn lemma_decimal_digits(n: nat)
    ensures
        decimal_digits(n).len() > 0,
        all_digits(decimal_digits(n)),
        decimal_value(decimal_digits(n)) == n,
    decreases n,
{
    if n < 10 {
        let s = decimal_digits(n);
        assert(s.drop_last().len() == 0);
        assert(decimal_value(s.drop_last()) == 0);
    } else {
        lemma_decimal_digits(n / 10);
        let head = decimal_digits(n / 10);
        let s = decimal_digits(n);
        assert(s.drop_last() =~= head);
        assert(s.last() == (48 + n % 10) as u8);
    }
}

/// A number that is written in decimal digits, with whitespace before and
/// after it or without, is read as that number if it fits a `usize`.
pub proof fn lemma_count_of_padded(left: Seq<u8>, digits: Seq<u8>, right: Seq<u8>)
    requires
        all_space(left),
        all_space(right),
        digits.len() > 0,
        all_digits(digits),
        decimal_value(digits) <= usize::MAX,
    ensures
        count_of(left + digits + right) == Ok::<_, Error>(decimal_value(digits) as usize),
{
    assert(is_digit(digits[0]));
    assert(is_digit(digits.last()));
    assert((digits + right)[0] == digits[0]);
    assert(left + digits + right =~= left + (digits + right));
    lemma_trim_start_padded(left, digits + right);
    lemma_trim_end_padded(digits, right);
}

/// Every count is read back from its decimal digits, with whitespace before
/// and after them or without.
pub proof fn lemma_count_of_number(left: Seq<u8>, n: usize, right: Seq<u8>)
    requires
        all_space(left),
        all_space(right),
    ensures
        count_of(left + decimal_digits(n as nat) + right) == Ok::<_, Error>(n),
{
    lemma_decimal_digits(n as nat);
    lemma_count_of_padded(left, decimal_digits(n as nat), right);
}

/// A value that holds anything but digits and whitespace is no count.
pub proof fn lemma_count_rejects_other_bytes(text: Seq<u8>, i: int)
    requires
        0 <= i < text.len(),
        !is_digit(text[i]),
        !is_space(text[i]),
    ensures
        count_of(text) == Err::<usize, _>(Error::InvalidCount),
{
    lemma_trim_spans(text, i, i);
    assert(trim(text)[i - leading_spaces(text)] == text[i]);
}

/// A value with whitespace between two digits is no count.
pub proof fn lemma_count_rejects_inner_space(text: Seq<u8>, i: int, j: int, k: int)
    requires
        0 <= i < j < k < text.len(),
        is_digit(text[i]),
        is_space(text[j]),
        is_digit(text[k]),
    ensures
        count_of(text) == Err::<usize, _>(Error::InvalidCount),
{
    lemma_trim_spans(text, i, k);
    assert(trim(text)[j - leading_spaces(text)] == text[j]);
}

/// Parses a count.
pub fn to_usize(text: &[u8]) -> (r: Result<usize, Error>)
    ensures
        r == count_of(text@),
{
    let (a, b) = trim_range(text, 0, text.len());
    let ghost t = text@.subrange(a as int, b as int);
    proof {
        assert(text@.subrange(0, text@.len() as int) =~= text@);
    }
    if a == b {
        return Err(Error::InvalidCount);
    }
    let mut acc: usize = 0;
    let mut i: usize = a;
    while i < b
        invariant
            a <= i <= b <= text@.len(),
            t == text@.subrange(a as int, b as int),
            t == trim(text@),
            all_digits(t.subrange(0, i - a)),
            acc == decimal_value(t.subrange(0, i - a)),
        decreases b - i,
    {
        let c: u8 = text[i];
        if c < 48 || c > 57 {
            assert(!is_digit(t[i - a]));
            return Err(Error::InvalidCount);
        }
        let d: usize = (c - 48) as usize;
        proof {
            assert(t.subrange(0, i + 1 - a).drop_last() =~= t.subrange(0, i - a));
            assert(t.subrange(0, i + 1 - a).last() == c);
            assert(decimal_value(t.subrange(0, i + 1 - a)) == acc * 10 + d);
        }
        if acc > (usize::MAX - d) / 10 {
            proof {
                lemma_prefix_value(t, i + 1 - a);
            }
            return Err(Error::InvalidCount);
        }
        acc = acc * 10 + d;
        i += 1;
    }
    proof {
        assert(t.subrange(0, b - a) =~= t);
    }
    Ok(acc)
}

} // verus!
