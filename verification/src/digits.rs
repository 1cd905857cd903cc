//! Decimal and positional-base digit arithmetic over the guessing domain:
//! digit sums, digit counts, and counting a digit character in the
//! rendering of a number in an arbitrary base.

use vstd::arithmetic::div_mod::{lemma_div_is_ordered_by_denominator, lemma_div_is_strictly_smaller};
use vstd::arithmetic::power2::{lemma2_to64, lemma_pow2_unfold, pow2};
use vstd::prelude::*;

verus! {

/// Sum of the decimal digits of `n`.
pub open spec fn digit_sum(n: nat) -> nat
    decreases n,
{
    if n < 10 {
        n
    } else {
        digit_sum(n / 10) + n % 10
    }
}

/// Number of decimal digits of `n` (one for `n == 0`: no leading zeros,
/// but zero itself is written with a single digit).
pub open spec fn digit_count(n: nat) -> nat
    decreases n,
{
    if n < 10 {
        1
    } else {
        digit_count(n / 10) + 1
    }
}

/// The character that writes the digit value `d` in positional notation:
/// `0`..`9` for values below ten, then lower-case `a`..`z` up to base 36.
pub open spec fn digit_char(d: nat) -> char {
    if d < 10 {
        ((d + 48) as u8) as char
    } else {
        ((d + 87) as u8) as char
    }
}

/// How many positions of the base-`base` rendering of `n` (most significant
/// digit first, no leading zeros) hold the character `c`.
pub open spec fn count_char_in_base(n: nat, base: nat, c: char) -> nat
    decreases n,
{
    if base < 2 {
        0
    } else if n < base {
        if digit_char(n) == c {
            1nat
        } else {
            0nat
        }
    } else {
        proof {
            lemma_div_is_strictly_smaller(n as int, base as int);
        }
        count_char_in_base(n / base, base, c) + (if digit_char(n % base) == c {
            1nat
        } else {
            0nat
        })
    }
}

/// A decimal digit sum never exceeds the number it came from.
proof fn lemma_digit_sum_le(n: nat)
    ensures
        digit_sum(n) <= n,
    decreases n,
{
    if n >= 10 {
        lemma_digit_sum_le(n / 10);
    }
}

/// Numbers below one thousand have at most three decimal digits.
proof fn lemma_digit_count_small(n: nat)
    requires
        n < 1000,
    ensures
        digit_count(n) <= 3,
{
    if n >= 10 {
        if n / 10 >= 10 {
            assert(n / 10 / 10 < 10);
            assert(digit_count(n / 10 / 10) == 1);
            assert(digit_count(n / 10) == 2);
        } else {
            assert(digit_count(n / 10) == 1);
        }
    }
}

/// Sum of the decimal digits of `n`.
pub fn sum_of_digits(n: u8) -> (r: u8)
    ensures
        r == digit_sum(n as nat),
{
    let mut m: u8 = n;
    let mut r: u8 = 0;
    proof {
        lemma_digit_sum_le(n as nat);
    }
    while m > 0
        invariant
            r + digit_sum(m as nat) == digit_sum(n as nat),
            digit_sum(n as nat) <= n as nat,
        decreases m,
    {
        r = r + m % 10;
        m = m / 10;
    }
    r
}

/// Number of decimal digits of `n`.
pub fn number_of_digits(n: u8) -> (r: u8)
    ensures
        r == digit_count(n as nat),
{
    let mut m: u8 = n;
    let mut r: u8 = 1;
    proof {
        lemma_digit_count_small(n as nat);
    }
    while m >= 10
        invariant
            r + digit_count(m as nat) == 1 + digit_count(n as nat),
            digit_count(n as nat) <= 3,
            r >= 1,
        decreases m,
    {
        r = r + 1;
        m = m / 10;
    }
    r
}

/// The character that writes the digit value `d`, for `d` below 36.
pub fn char_of_digit(d: u8) -> (r: char)
    requires
        d < 36,
    ensures
        r == digit_char(d as nat),
{
    if d < 10 {
        (d + 48) as char
    } else {
        (d + 87) as char
    }
}

/// A number below `pow2(k)` has at most `k` positions in any base of two
/// or more, so the character `c` cannot occur more often than that.
proof fn lemma_count_char_bound(n: nat, base: nat, c: char, k: nat)
    requires
        2 <= base,
        1 <= k,
        n < pow2(k),
    ensures
        count_char_in_base(n, base, c) <= k,
    decreases n,
{
    if n >= base {
        lemma_pow2_unfold(k);
        if k < 2 {
            assert(pow2(1) == 2) by {
                lemma2_to64();
            }
        }
        lemma_div_is_ordered_by_denominator(n as int, 2, base as int);
        lemma_count_char_bound(n / base, base, c, (k - 1) as nat);
    }
}

/// How many positions of the base-`base` rendering of `n` hold the
/// character `c`.
pub fn count_char_occurrences(n: u8, base: u8, c: char) -> (r: u8)
    requires
        2 <= base <= 36,
    ensures
        r == count_char_in_base(n as nat, base as nat, c),
{
    let mut m: u8 = n;
    let mut r: u8 = 0;
    proof {
        lemma2_to64();
        lemma_count_char_bound(n as nat, base as nat, c, 8);
    }
    while m >= base
        invariant
            2 <= base <= 36,
            r + count_char_in_base(m as nat, base as nat, c) == count_char_in_base(
                n as nat,
                base as nat,
                c,
            ),
            count_char_in_base(n as nat, base as nat, c) <= 8,
        decreases m,
    {
        proof {
            lemma_div_is_strictly_smaller(m as int, base as int);
        }
        let dc = char_of_digit(m % base);
        if dc == c {
            r = r + 1;
        }
        m = m / base;
    }
    if char_of_digit(m) == c {
        r + 1
    } else {
        r
    }
}

} // verus!
