//! String equality and decimal numerals.
//!
//! The decoder recognizes mnemonics by comparing strings and reads the
//! argument of `push` as a decimal numeral in `0..=65535`; both operations
//! are implemented and specified here over the character sequences that
//! strings denote.

use vstd::prelude::*;
use vstd::string::StrSliceExecFns;

verus! {

/// True of the decimal digit characters `'0'..='9'`.
pub open spec fn spec_is_digit(c: char) -> bool {
    '0' as int <= c as int <= '9' as int
}

/// The numeric value of a decimal digit character.
pub open spec fn digit_value(c: char) -> int {
    c as int - '0' as int
}

/// True when every character of `s` is a decimal digit.
pub open spec fn seq_is_digits(s: Seq<char>) -> bool {
    forall|i: int| 0 <= i < s.len() ==> spec_is_digit(#[trigger] s[i])
}

/// The value of a sequence of decimal digits, most significant first.
pub open spec fn dec_value(s: Seq<char>) -> int
    decreases s.len(),
{
    if s.len() == 0 {
        0
    } else {
        dec_value(s.drop_last()) * 10 + digit_value(s.last())
    }
}

/// The digits of a numeral: the text with an optional leading `'+'` removed.
pub open spec fn numeral_body(s: Seq<char>) -> Seq<char> {
    if s.len() > 0 && s[0] == '+' {
        s.subrange(1, s.len() as int)
    } else {
        s
    }
}

/// True when `s` is a decimal numeral (an optional `'+'` followed by at least
/// one digit) whose value fits in an unsigned 16-bit integer.
pub open spec fn is_u16_numeral(s: Seq<char>) -> bool {
    let d = numeral_body(s);
    d.len() > 0 && seq_is_digits(d) && dec_value(d) <= 65535
}

/// The value of a numeral accepted by [`is_u16_numeral`].
pub open spec fn u16_numeral(s: Seq<char>) -> int {
    dec_value(numeral_body(s))
}

/// A digit sequence has a non-negative value.
pub proof fn lemma_dec_value_nonneg(s: Seq<char>)
    requires
        seq_is_digits(s),
    ensures
        0 <= dec_value(s),
    decreases s.len(),
{
    if s.len() > 0 {
        assert(seq_is_digits(s.drop_last()));
        lemma_dec_value_nonneg(s.drop_last());
    }
}

/// A prefix of a digit sequence has a value no greater than the whole.
pub proof fn lemma_dec_value_prefix_le(s: Seq<char>, i: int)
    requires
        seq_is_digits(s),
        0 <= i <= s.len(),
    ensures
        dec_value(s.take(i)) <= dec_value(s),
    decreases s.len(),
{
    if i == s.len() {
        assert(s.take(i) =~= s);
    } else {
        assert(seq_is_digits(s.drop_last()));
        lemma_dec_value_prefix_le(s.drop_last(), i);
        assert(s.drop_last().take(i) =~= s.take(i));
        lemma_dec_value_nonneg(s.drop_last());
    }
}

/// Whether two string slices hold the same characters.
pub fn str_eq(a: &str, b: &str) -> (r: bool)
    ensures
        r == (a@ == b@),
{
    let x: String = a.to_owned();
    let y: String = b.to_owned();
    x == y
}

/// Reads a decimal numeral in `0..=65535`, an optional leading `'+'`
/// included; returns `None` exactly when the text is not such a numeral.
pub fn parse_u16(s: &str) -> (r: Option<u16>)
    ensures
        match r {
            Some(v) => is_u16_numeral(s@) && v as int == u16_numeral(s@),
            None => !is_u16_numeral(s@),
        },
{
    let n = s.unicode_len();
    if n == 0 {
        return None;
    }
    let first = s.get_char(0);
    let start: usize = if first == '+' {
        1
    } else {
        0
    };
    if start == n {
        // the text is just "+": no digits follow
        return None;
    }
    let ghost digits = numeral_body(s@);
    proof {
        if start == 0 {
            assert(s@.subrange(0, n as int) =~= s@);
        }
        assert(digits =~= s@.subrange(start as int, n as int));
    }
    let mut i: usize = start;
    let mut acc: u32 = 0;
    while i < n
        invariant
            start <= i <= n,
            start < n,
            n == s@.len(),
            digits =~= s@.subrange(start as int, n as int),
            digits == numeral_body(s@),
            seq_is_digits(digits.take(i - start)),
            acc as int == dec_value(digits.take(i - start)),
            acc <= 65535,
        decreases n - i,
    {
        let c = s.get_char(i);
        let d = c as u32;
        proof {
            assert(digits[i - start] == c);
        }
        if d < 48 || d > 57 {
            proof {
                assert(!spec_is_digit(digits[i - start]));
            }
            return None;
        }
        let ghost prev = digits.take(i - start);
        let next = acc * 10 + (d - 48);
        proof {
            assert(digits.take(i + 1 - start).drop_last() =~= prev);
            assert(digits.take(i + 1 - start).last() == c);
            assert(seq_is_digits(digits.take(i + 1 - start)));
            assert(next as int == dec_value(digits.take(i + 1 - start)));
        }
        if next > 65535 {
            proof {
                if is_u16_numeral(s@) {
                    lemma_dec_value_prefix_le(digits, i + 1 - start);
                }
            }
            return None;
        }
        acc = next;
        i = i + 1;
    }
    proof {
        assert(digits.take(n - start) =~= digits);
    }
    Some(acc as u16)
}

} // verus!
