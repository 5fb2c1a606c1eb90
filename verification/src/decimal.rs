//! Unsigned numbers in decimal notation.

use crate::text::{chars_of, push_char};
use vstd::prelude::*;

verus! {

/// Whether `c` is one of the ten digits.
pub open spec fn is_digit(c: char) -> bool {
    '0' <= c && c <= '9'
}

/// The number that the digit `c` stands for.
pub open spec fn digit_value(c: char) -> nat {
    (c as u8 - 48) as nat
}

/// The digit that stands for `d`, which is below ten.
pub open spec fn digit_char(d: nat) -> char
    recommends
        d < 10,
{
    ((d + 48) as u8) as char
}

/// Whether `s` is made of digits only. The empty sequence is.
pub open spec fn all_digits(s: Seq<char>) -> bool {
    forall|i: int| 0 <= i < s.len() ==> is_digit(#[trigger] s[i])
}

/// The number that the digits `s` denote, the first digit counting most.
pub open spec fn digits_value(s: Seq<char>) -> nat
    decreases s.len(),
{
    if s.len() == 0 {
        0
    } else {
        digits_value(s.drop_last()) * 10 + digit_value(s.last())
    }
}

/// Whether `s` is a number as written: one digit or more, with at most one
/// `+` before them. A `-` is no part of a number.
pub open spec fn is_number(s: Seq<char>) -> bool {
    let digits = unsigned_part(s);
    digits.len() > 0 && all_digits(digits)
}

/// `s` without the `+` that may stand in front.
pub open spec fn unsigned_part(s: Seq<char>) -> Seq<char> {
    if s.len() > 0 && s[0] == '+' {
        s.subrange(1, s.len() as int)
    } else {
        s
    }
}

/// The number that `s` denotes.
pub open spec fn number_value(s: Seq<char>) -> nat
    recommends
        is_number(s),
{
    digits_value(unsigned_part(s))
}

/// The number that `s` denotes, where `s` is a number that `usize` can hold.
pub open spec fn parsed(s: Seq<char>) -> Option<usize> {
    if is_number(s) && number_value(s) <= usize::MAX {
        Some(number_value(s) as usize)
    } else {
        None
    }
}

/// The digits of `n` without leading zeros; `0` is written as one digit.
pub open spec fn digits_of(n: nat) -> Seq<char>
    decreases n,
{
    if n < 10 {
        seq![digit_char(n)]
    } else {
        digits_of(n / 10).push(digit_char(n % 10))
    }
}

/// A longer row of digits denotes no less than its beginning.
pub proof fn lemma_digits_value_grows(s: Seq<char>, k: int)
    requires
        0 <= k <= s.len(),
    ensures
        digits_value(s.subrange(0, k)) <= digits_value(s),
    decreases s.len() - k,
{
    if k == s.len() {
        assert(s.subrange(0, k) =~= s);
    } else {
        lemma_digits_value_grows(s.drop_last(), k);
        assert(s.drop_last().subrange(0, k) =~= s.subrange(0, k));
    }
}

/// What is written for `n` is a number, holds digits only, and denotes `n`.
pub proof fn lemma_digits_of(n: nat)
    ensures
        digits_of(n).len() > 0,
        all_digits(digits_of(n)),
        is_number(digits_of(n)),
        digits_value(digits_of(n)) == n,
        number_value(digits_of(n)) == n,
    decreases n,
{
    let s = digits_of(n);
    if n < 10 {
        assert(s.drop_last() =~= Seq::<char>::empty());
        assert(digits_value(s.drop_last()) == 0);
    } else {
        lemma_digits_of(n / 10);
        assert(s.drop_last() =~= digits_of(n / 10));
        assert forall|i: int| 0 <= i < s.len() implies is_digit(#[trigger] s[i]) by {
            if i < s.len() - 1 {
                assert(s[i] == digits_of(n / 10)[i]);
            }
        }
    }
    assert(s[0] != '+');
}

/// Reads the number in `chars[from..to]`.
pub(crate) fn parse_range(chars: &Vec<char>, from: usize, to: usize) -> (value: Option<usize>)
    requires
        from <= to <= chars.len(),
    ensures
        value == parsed(chars@.subrange(from as int, to as int)),
{
    let ghost s = chars@.subrange(from as int, to as int);
    let start: usize = if from < to && chars[from] == '+' {
        from + 1
    } else {
        from
    };
    let ghost digits = chars@.subrange(start as int, to as int);
    assert(digits =~= unsigned_part(s));
    if start == to {
        return None;
    }
    let mut acc: usize = 0;
    let mut i: usize = start;
    while i < to
        invariant
            from <= start <= i <= to <= chars.len(),
            digits == chars@.subrange(start as int, to as int),
            digits == unsigned_part(chars@.subrange(from as int, to as int)),
            all_digits(digits.subrange(0, i - start)),
            acc == digits_value(digits.subrange(0, i - start)),
        decreases to - i,
    {
        let c = chars[i];
        let ghost upto = digits.subrange(0, i - start + 1);
        proof {
            assert(upto.drop_last() =~= digits.subrange(0, i - start));
            assert(upto.last() == c);
        }
        if !('0' <= c && c <= '9') {
            assert(!is_digit(digits[i - start]));
            return None;
        }
        let d: usize = (c as u8 - 48u8) as usize;
        let next = match acc.checked_mul(10) {
            Some(tenfold) => tenfold.checked_add(d),
            None => None,
        };
        match next {
            Some(v) => {
                acc = v;
            },
            None => {
                proof {
                    assert(digits_value(upto) > usize::MAX);
                    lemma_digits_value_grows(digits, i - start + 1);
                }
                return None;
            },
        }
        i += 1;
        assert forall|j: int| 0 <= j < upto.len() implies is_digit(#[trigger] upto[j]) by {
            if j < upto.len() - 1 {
                assert(upto[j] == digits.subrange(0, i - start - 1)[j]);
            }
        }
    }
    assert(digits.subrange(0, to - start) =~= digits);
    Some(acc)
}

/// Reads a number.
pub fn parse_number(text: &str) -> (value: Option<usize>)
    ensures
        value == parsed(text@),
{
    let chars = chars_of(text);
    assert(chars@.subrange(0, chars.len() as int) =~= text@);
    parse_range(&chars, 0, chars.len())
}

/// Appends the digits of `n` to `out`.
pub(crate) fn push_number(out: &mut String, n: usize)
    ensures
        final(out)@ == old(out)@ + digits_of(n as nat),
    decreases n,
{
    if n >= 10 {
        push_number(out, n / 10);
    }
    let d: u8 = (n % 10) as u8;
    push_char(out, (d + 48u8) as char);
    proof {
        if n >= 10 {
            assert(out@ =~= old(out)@ + digits_of(n as nat));
        } else {
            assert(out@ =~= old(out)@ + digits_of(n as nat));
        }
    }
}

/// Writes `n` in decimal.
pub fn format_number(n: usize) -> (text: String)
    ensures
        text@ == digits_of(n as nat),
{
    let mut text = String::new();
    push_number(&mut text, n);
    assert(text@ =~= digits_of(n as nat));
    text
}

} // verus!
