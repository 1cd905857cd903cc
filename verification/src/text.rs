//! Verified building blocks for the human-readable property
//! descriptions: appending characters and decimal renderings.

use crate::digits::{char_of_digit, digit_char};
use vstd::arithmetic::div_mod::lemma_div_denominator;
use vstd::prelude::*;

verus! {

/// The decimal rendering of `n`, most significant digit first, with no
/// leading zeros.
pub open spec fn decimal_chars(n: nat) -> Seq<char>
    decreases n,
{
    if n < 10 {
        seq![digit_char(n)]
    } else {
        decimal_chars(n / 10).push(digit_char(n % 10))
    }
}

/// Relies on String::push: it appends exactly the given character.
#[verifier::external_body]
pub(crate) fn push_char(s: &mut String, c: char)
    ensures
        final(s)@ == old(s)@ + seq![c],
{
    s.push(c)
}

/// Append the decimal rendering of `n` to `s`.
pub fn append_decimal(s: &mut String, n: u8)
    ensures
        final(s)@ == old(s)@ + decimal_chars(n as nat),
{
    proof {
        lemma_div_denominator(n as int, 10, 10);
    }
    if n >= 100 {
        push_char(s, char_of_digit(n / 100));
    }
    if n >= 10 {
        push_char(s, char_of_digit((n / 10) % 10));
    }
    push_char(s, char_of_digit(n % 10));
    proof {
        let m = n as nat;
        if n >= 100 {
            assert(m / 10 / 10 == m / 100);
            assert(decimal_chars(m / 10) == decimal_chars(m / 100).push(digit_char((m / 10) % 10)));
            assert(decimal_chars(m / 100) == seq![digit_char(m / 100)]);
        } else if n >= 10 {
            assert(decimal_chars(m / 10) == seq![digit_char(m / 10)]);
            assert((m / 10) % 10 == m / 10);
        }
        assert(s@ =~= old(s)@ + decimal_chars(m));
    }
}

} // verus!
