//! Unsigned decimal numerals: their value, and the numeral of a value.

use crate::scan::{all_in, CharClass};
use vstd::prelude::*;

verus! {

/// The value of the decimal digit `c`.
pub open spec fn digit_value(c: char) -> nat {
    (c as int - '0' as int) as nat
}

/// The decimal digit that stands for `d`, for `d` below ten.
pub open spec fn digit_char(d: nat) -> char {
    (d + '0' as nat) as char
}

/// The number that the decimal numeral `digits` denotes. Leading zeros
/// do not change it, and the empty numeral denotes zero.
pub open spec fn decimal_value(digits: Seq<char>) -> nat
    decreases digits.len(),
{
    if digits.len() == 0 {
        0
    } else {
        10 * decimal_value(digits.drop_last()) + digit_value(digits.last())
    }
}

/// The shortest decimal numeral that denotes `n`.
pub open spec fn decimal_digits(n: nat) -> Seq<char>
    decreases n,
{
    if n < 10 {
        seq![digit_char(n)]
    } else {
        decimal_digits(n / 10).push(digit_char(n % 10))
    }
}

/// `n`, or the largest `u64` where `n` does not fit.
pub open spec fn saturate(n: nat) -> u64 {
    if n <= u64::MAX {
        n as u64
    } else {
        u64::MAX
    }
}

/// The numeral of a number is not empty, holds digits only, and denotes
/// that number.
pub proof fn lemma_decimal_round_trip(n: nat)
    ensures
        decimal_digits(n).len() > 0,
        all_in(decimal_digits(n), CharClass::Digit),
        decimal_value(decimal_digits(n)) == n,
    decreases n,
{
    let digits = decimal_digits(n);
    if n < 10 {
        assert(digits.drop_last() =~= Seq::<char>::empty());
        assert(decimal_value(digits.drop_last()) == 0);
    } else {
        lemma_decimal_round_trip(n / 10);
        assert(digits.drop_last() =~= decimal_digits(n / 10));
    }
}

/// A numeral extended by one digit denotes ten times as much, plus the
/// digit.
pub proof fn lemma_decimal_value_push(digits: Seq<char>, c: char)
    ensures
        decimal_value(digits.push(c)) == 10 * decimal_value(digits) + digit_value(c),
{
    assert(digits.push(c).drop_last() =~= digits);
}

/// Reads the numeral at `from..to` of `chars`, saturating at the largest
/// `u64`.
pub fn read_decimal(chars: &Vec<char>, from: usize, to: usize) -> (n: u64)
    requires
        from <= to <= chars.len(),
        all_in(chars@.subrange(from as int, to as int), CharClass::Digit),
    ensures
        n == saturate(decimal_value(chars@.subrange(from as int, to as int))),
{
    let mut acc: u64 = 0;
    let mut fits: bool = true;
    let mut k: usize = from;
    while k < to
        invariant
            from <= k <= to <= chars.len(),
            all_in(chars@.subrange(from as int, to as int), CharClass::Digit),
            fits ==> acc == decimal_value(chars@.subrange(from as int, k as int)),
            !fits ==> decimal_value(chars@.subrange(from as int, k as int)) > u64::MAX,
        decreases to - k,
    {
        let c: char = chars[k];
        proof {
            assert(chars@.subrange(from as int, to as int)[k - from] == c);
            assert(chars@.subrange(from as int, k + 1) =~= chars@.subrange(
                from as int,
                k as int,
            ).push(c));
            lemma_decimal_value_push(chars@.subrange(from as int, k as int), c);
        }
        if fits {
            let d: u64 = (c as u32 - '0' as u32) as u64;
            assert(d == digit_value(c));
            match acc.checked_mul(10) {
                Some(tens) => match tens.checked_add(d) {
                    Some(next) => {
                        acc = next;
                    },
                    None => {
                        fits = false;
                    },
                },
                None => {
                    fits = false;
                },
            }
        }
        k = k + 1;
    }
    if fits {
        acc
    } else {
        u64::MAX
    }
}

/// The one-character text of the decimal digit that stands for `d`.
pub fn digit_text(d: u64) -> (t: &'static str)
    requires
        d < 10,
    ensures
        t@ == seq![digit_char(d as nat)],
{
    proof {
        reveal_strlit("0");
        reveal_strlit("1");
        reveal_strlit("2");
        reveal_strlit("3");
        reveal_strlit("4");
        reveal_strlit("5");
        reveal_strlit("6");
        reveal_strlit("7");
        reveal_strlit("8");
        reveal_strlit("9");
    }
    let t: &'static str = if d == 0 {
        "0"
    } else if d == 1 {
        "1"
    } else if d == 2 {
        "2"
    } else if d == 3 {
        "3"
    } else if d == 4 {
        "4"
    } else if d == 5 {
        "5"
    } else if d == 6 {
        "6"
    } else if d == 7 {
        "7"
    } else if d == 8 {
        "8"
    } else {
        "9"
    };
    assert(t@ =~= seq![digit_char(d as nat)]);
    t
}

/// Appends the decimal numeral of `n` to `out`.
pub fn push_decimal(out: &mut String, n: u64)
    ensures
        final(out)@ == old(out)@ + decimal_digits(n as nat),
    decreases n,
{
    if n >= 10 {
        push_decimal(out, n / 10);
    }
    out.append(digit_text(n % 10));
    assert(out@ =~= old(out)@ + decimal_digits(n as nat));
}

} // verus!
