//! Literal token conversion.
//!
//! Integer tokens are unsigned decimal digit strings (a leading minus is an
//! operator, not part of the token).  A token whose value does not fit the
//! 64-bit signed range is rejected: in particular the token for the minimum
//! representable value, `9223372036854775808`, cannot be written as a single
//! literal — that value is only reachable through subtraction.

use vstd::prelude::*;

verus! {

/// A decimal digit.
pub open spec fn is_digit(c: char) -> bool {
    48 <= c as u32 <= 57
}

/// The value of one digit character.
pub open spec fn digit_val(c: char) -> int {
    c as u32 - 48
}

/// A non-empty, all-digit token.
pub open spec fn is_digits(s: Seq<char>) -> bool {
    s.len() > 0 && forall|i: int| 0 <= i < s.len() ==> is_digit(#[trigger] s[i])
}

/// The numeric value of a digit string.
pub open spec fn digits_val(s: Seq<char>) -> int
    decreases s.len(),
{
    if s.len() == 0 {
        0
    } else {
        digits_val(s.drop_last()) * 10 + digit_val(s.last())
    }
}

pub proof fn lemma_digits_val_nonneg(s: Seq<char>)
    requires
        forall|i: int| 0 <= i < s.len() ==> is_digit(#[trigger] s[i]),
    ensures
        digits_val(s) >= 0,
    decreases s.len(),
{
    if s.len() > 0 {
        assert(forall|i: int|
            0 <= i < s.drop_last().len() ==> is_digit(#[trigger] s.drop_last()[i]));
        lemma_digits_val_nonneg(s.drop_last());
    }
}

/// A digit string is worth at least any of its prefixes.
proof fn lemma_digits_val_prefix(s: Seq<char>, i: int)
    requires
        forall|j: int| 0 <= j < s.len() ==> is_digit(#[trigger] s[j]),
        0 <= i <= s.len(),
    ensures
        digits_val(s) >= digits_val(s.subrange(0, i)),
    decreases s.len() - i,
{
    if i < s.len() {
        let p = s.subrange(0, i);
        let q = s.subrange(0, i + 1);
        assert(q.drop_last() =~= p);
        assert(q.last() == s[i]);
        lemma_digits_val_nonneg(p);
        assert(digits_val(q) == digits_val(p) * 10 + digit_val(s[i]));
        lemma_digits_val_prefix(s, i + 1);
    } else {
        assert(s.subrange(0, i) =~= s);
    }
}

/// Why an integer token was rejected.
#[derive(Debug, Copy, Clone, PartialEq, Eq)]
pub enum IntTokenError {
    /// Not a non-empty string of decimal digits.
    Invalid,
    /// A digit string whose value exceeds the largest 64-bit signed integer.
    OutOfRange,
}

/// Converts an integer token.
pub fn parse_int_token(tok: &str) -> (r: Result<i64, IntTokenError>)
    ensures
        match r {
            Ok(v) => is_digits(tok@) && digits_val(tok@) <= i64::MAX && v >= 0 && v as int
                == digits_val(tok@),
            Err(IntTokenError::Invalid) => !is_digits(tok@),
            Err(IntTokenError::OutOfRange) => is_digits(tok@) && digits_val(tok@) > i64::MAX,
        },
{
    let n: usize = tok.unicode_len();
    if n == 0 {
        return Err(IntTokenError::Invalid);
    }
    // First pass: every character must be a digit.
    let mut i: usize = 0;
    while i < n
        invariant
            i <= n,
            n == tok@.len(),
            forall|j: int| 0 <= j < i ==> is_digit(#[trigger] tok@[j]),
        decreases n - i,
    {
        let c: char = tok.get_char(i);
        let cu: u32 = c as u32;
        if cu < 48 || cu > 57 {
            return Err(IntTokenError::Invalid);
        }
        i += 1;
    }
    // Second pass: accumulate, watching the signed 64-bit bound.
    let mut acc: i64 = 0;
    let mut k: usize = 0;
    proof {
        assert(tok@.subrange(0, 0) =~= Seq::<char>::empty());
    }
    while k < n
        invariant
            k <= n,
            n == tok@.len(),
            n > 0,
            is_digits(tok@),
            0 <= acc,
            acc as int == digits_val(tok@.subrange(0, k as int)),
        decreases n - k,
    {
        let c: char = tok.get_char(k);
        let cu: u32 = c as u32;
        let d: i64 = (cu - 48) as i64;
        proof {
            let p = tok@.subrange(0, k as int);
            let q = tok@.subrange(0, k + 1);
            assert(q.drop_last() =~= p);
            assert(q.last() == tok@[k as int]);
        }
        if acc > 922337203685477580i64 || (acc == 922337203685477580i64 && d > 7) {
            // The value exceeds `i64::MAX`; with all-digit input it can only
            // grow from here.
            proof {
                lemma_digits_val_prefix(tok@, k + 1);
            }
            return Err(IntTokenError::OutOfRange);
        }
        acc = acc * 10 + d;
        k += 1;
    }
    proof {
        assert(tok@.subrange(0, n as int) =~= tok@);
    }
    Ok(acc)
}

} // verus!
