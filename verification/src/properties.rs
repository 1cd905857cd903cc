//! The closed set of boolean properties a puzzle can demand of a guess:
//! three representation kinds, four factor kinds, and the sequence kind,
//! each with randomized parameters, exact fulfillment semantics, and a
//! descriptive rendering.

use crate::digits::{
    char_of_digit, count_char_in_base, count_char_occurrences, digit_count, digit_sum,
    number_of_digits, sum_of_digits,
};
use crate::factors::{check_prime, count_divisors, divisor_count, gcd, is_prime, spec_gcd};
use crate::rng::{rand_coin, rand_u8_between};
use crate::sequences::Sequence;
use crate::text::{append_decimal, decimal_chars, push_char};
use core::cmp::Ordering;
use vstd::prelude::*;
use vstd::string::StringExecFns;

verus! {

/// `a cmp b` for the three comparison senses a property can carry.
pub open spec fn cmp_holds(cmp: Ordering, a: nat, b: nat) -> bool {
    match cmp {
        Ordering::Greater => a > b,
        Ordering::Equal => a == b,
        Ordering::Less => a < b,
    }
}

/// Evaluate a comparison sense on two bounded values.
pub fn cmp_eval(cmp: Ordering, a: u8, b: u8) -> (r: bool)
    ensures
        r == cmp_holds(cmp, a as nat, b as nat),
{
    match cmp {
        Ordering::Greater => a > b,
        Ordering::Equal => a == b,
        Ordering::Less => a < b,
    }
}

/// Draw one of the three comparison senses uniformly.
fn rand_comparison(rng: &mut rand::rngs::StdRng) -> (c: Ordering) {
    let k = rand_u8_between(rng, 0, 2);
    if k == 0 {
        Ordering::Greater
    } else if k == 1 {
        Ordering::Equal
    } else {
        Ordering::Less
    }
}

/// One boolean predicate over a guessed integer. A property is immutable
/// once generated: it answers `fulfilled` queries and renders itself,
/// and fresh instances come only from `generate`.
pub trait Property: Sized {
    /// The parameters lie within their documented domains.
    spec fn wf(&self) -> bool;

    /// The predicate this property stands for.
    spec fn spec_fulfilled(&self, by: u8) -> bool;

    /// The descriptive rendering, as a character sequence.
    spec fn spec_description(&self) -> Seq<char>;

    /// Whether the guess `by` satisfies the property.
    fn fulfilled(&self, by: u8) -> (r: bool)
        requires
            self.wf(),
        ensures
            r == self.spec_fulfilled(by),
    ;

    /// The descriptive rendering of the property.
    fn debug_print(&self) -> (s: String)
        ensures
            s@ == self.spec_description(),
    ;

    /// Draw a fresh property of this kind from the given source.
    fn generate(rng: &mut rand::rngs::StdRng) -> (r: Self)
        ensures
            r.wf(),
    ;
}

/// The rendering of `by` in `base` holds the digit character `character`
/// exactly `amount` times.
#[derive(Clone, Copy)]
pub struct HasBase {
    pub character: char,
    pub amount: u8,
    pub base: u8,
}

impl Property for HasBase {
    open spec fn wf(&self) -> bool {
        &&& 2 <= self.base <= 36
        &&& self.amount <= 3
    }

    open spec fn spec_fulfilled(&self, by: u8) -> bool {
        count_char_in_base(by as nat, self.base as nat, self.character) == self.amount
    }

    open spec fn spec_description(&self) -> Seq<char> {
        "Input contains character '"@ + seq![self.character] + "' "@ + decimal_chars(
            self.amount as nat,
        ) + " times in base "@ + decimal_chars(self.base as nat)
    }

    fn fulfilled(&self, by: u8) -> (r: bool) {
        count_char_occurrences(by, self.base, self.character) == self.amount
    }

    fn debug_print(&self) -> (s: String) {
        let mut s = String::new();
        s.append("Input contains character '");
        push_char(&mut s, self.character);
        s.append("' ");
        append_decimal(&mut s, self.amount);
        s.append(" times in base ");
        append_decimal(&mut s, self.base);
        proof {
            assert(s@ =~= self.spec_description());
        }
        s
    }

    fn generate(rng: &mut rand::rngs::StdRng) -> (r: Self) {
        let base = rand_u8_between(rng, 2, 36);
        let amount = rand_u8_between(rng, 0, 3);
        let digit = rand_u8_between(rng, 0, base - 1);
        HasBase { character: char_of_digit(digit), amount, base }
    }
}

/// The decimal digit sum of the guess compares as `comparison` against
/// `sum`.
#[derive(Clone, Copy)]
pub struct SumDigits {
    pub sum: u8,
    pub comparison: Ordering,
}

impl Property for SumDigits {
    open spec fn wf(&self) -> bool {
        4 <= self.sum <= 24
    }

    open spec fn spec_fulfilled(&self, by: u8) -> bool {
        cmp_holds(self.comparison, digit_sum(by as nat), self.sum as nat)
    }

    open spec fn spec_description(&self) -> Seq<char> {
        "Digits sum to "@ + (match self.comparison {
            Ordering::Greater => "more than"@,
            Ordering::Equal => "exactly"@,
            Ordering::Less => "less than"@,
        }) + " "@ + decimal_chars(self.sum as nat)
    }

    fn fulfilled(&self, by: u8) -> (r: bool) {
        cmp_eval(self.comparison, sum_of_digits(by), self.sum)
    }

    fn debug_print(&self) -> (s: String) {
        let mut s = String::new();
        s.append("Digits sum to ");
        s.append(
            match self.comparison {
                Ordering::Greater => "more than",
                Ordering::Equal => "exactly",
                Ordering::Less => "less than",
            },
        );
        s.append(" ");
        append_decimal(&mut s, self.sum);
        proof {
            assert(s@ =~= self.spec_description());
        }
        s
    }

    /// Extreme sums would make an exact or downward comparison trivial
    /// or unsatisfiable, so those senses are only drawn mid-range.
    fn generate(rng: &mut rand::rngs::StdRng) -> (r: Self)
        ensures
            4 <= r.sum <= 24,
            r.sum < 6 ==> r.comparison == Ordering::Greater,
            r.sum > 16 ==> r.comparison == Ordering::Less,
    {
        let sum = rand_u8_between(rng, 4, 24);
        let comparison = if sum < 6 {
            Ordering::Greater
        } else if sum > 16 {
            Ordering::Less
        } else {
            rand_comparison(rng)
        };
        SumDigits { sum, comparison }
    }
}

/// The decimal digit count of the guess compares as `comparison` against
/// `amount`.
#[derive(Clone, Copy)]
pub struct NumDigits {
    pub amount: u8,
    pub comparison: Ordering,
}

impl Property for NumDigits {
    open spec fn wf(&self) -> bool {
        self.amount <= 3
    }

    open spec fn spec_fulfilled(&self, by: u8) -> bool {
        cmp_holds(self.comparison, digit_count(by as nat), self.amount as nat)
    }

    open spec fn spec_description(&self) -> Seq<char> {
        "# Digits "@ + (match self.comparison {
            Ordering::Greater => ">"@,
            Ordering::Equal => "="@,
            Ordering::Less => "<"@,
        }) + " "@ + decimal_chars(self.amount as nat)
    }

    fn fulfilled(&self, by: u8) -> (r: bool) {
        cmp_eval(self.comparison, number_of_digits(by), self.amount)
    }

    fn debug_print(&self) -> (s: String) {
        let mut s = String::new();
        s.append("# Digits ");
        s.append(
            match self.comparison {
                Ordering::Greater => ">",
                Ordering::Equal => "=",
                Ordering::Less => "<",
            },
        );
        s.append(" ");
        append_decimal(&mut s, self.amount);
        proof {
            assert(s@ =~= self.spec_description());
        }
        s
    }

    /// Every guess has one to three decimal digits, so thresholds at the
    /// edges only keep the senses that can still go both ways.
    fn generate(rng: &mut rand::rngs::StdRng) -> (r: Self)
        ensures
            r.amount <= 3,
            r.amount <= 1 ==> r.comparison == Ordering::Greater,
            r.amount == 3 ==> r.comparison == Ordering::Less,
            r.amount == 2 ==> r.comparison != Ordering::Less,
    {
        let amount = rand_u8_between(rng, 0, 3);
        let comparison = if amount <= 1 {
            Ordering::Greater
        } else if amount == 3 {
            Ordering::Less
        } else {
            let k = rand_u8_between(rng, 0, 1);
            if k == 0 {
                Ordering::Greater
            } else {
                Ordering::Equal
            }
        };
        NumDigits { amount, comparison }
    }
}

/// Divisibility of the guess by `factor` matches `contains`.
#[derive(Clone, Copy)]
pub struct HasFactor {
    pub factor: u8,
    pub contains: bool,
}

impl Property for HasFactor {
    open spec fn wf(&self) -> bool {
        self.factor >= 1
    }

    open spec fn spec_fulfilled(&self, by: u8) -> bool {
        ((by as nat) % (self.factor as nat) == 0) == self.contains
    }

    open spec fn spec_description(&self) -> Seq<char> {
        Seq::<char>::empty()
    }

    fn fulfilled(&self, by: u8) -> (r: bool) {
        (by % self.factor == 0) == self.contains
    }

    fn debug_print(&self) -> (s: String) {
        let s = String::new();
        s
    }

    fn generate(rng: &mut rand::rngs::StdRng) -> (r: Self)
        ensures
            r.factor >= 1,
    {
        let factor = rand_u8_between(rng, 1, 255);
        let contains = rand_coin(rng);
        HasFactor { factor, contains }
    }
}

/// The number of positive divisors of the guess compares as `comparison`
/// against `num`.
#[derive(Clone, Copy)]
pub struct NumFactor {
    pub num: u8,
    pub comparison: Ordering,
}

impl Property for NumFactor {
    open spec fn wf(&self) -> bool {
        true
    }

    open spec fn spec_fulfilled(&self, by: u8) -> bool {
        cmp_holds(self.comparison, divisor_count(by as nat), self.num as nat)
    }

    open spec fn spec_description(&self) -> Seq<char> {
        Seq::<char>::empty()
    }

    fn fulfilled(&self, by: u8) -> (r: bool) {
        cmp_eval(self.comparison, count_divisors(by), self.num)
    }

    fn debug_print(&self) -> (s: String) {
        let s = String::new();
        s
    }

    /// The threshold is drawn from 1..=8, divisor counts that small
    /// guesses actually reach.
    fn generate(rng: &mut rand::rngs::StdRng) -> (r: Self)
        ensures
            1 <= r.num <= 8,
    {
        let num = rand_u8_between(rng, 1, 8);
        let comparison = rand_comparison(rng);
        NumFactor { num, comparison }
    }
}

/// The greatest common divisor of the guess and `with` compares as
/// `comparison` against `border`.
#[derive(Clone, Copy)]
pub struct MaxGCDWith {
    pub with: u8,
    pub border: u8,
    pub comparison: Ordering,
}

impl Property for MaxGCDWith {
    open spec fn wf(&self) -> bool {
        self.with >= 1
    }

    open spec fn spec_fulfilled(&self, by: u8) -> bool {
        cmp_holds(self.comparison, spec_gcd(by as nat, self.with as nat), self.border as nat)
    }

    open spec fn spec_description(&self) -> Seq<char> {
        Seq::<char>::empty()
    }

    fn fulfilled(&self, by: u8) -> (r: bool) {
        cmp_eval(self.comparison, gcd(by, self.with), self.border)
    }

    fn debug_print(&self) -> (s: String) {
        let s = String::new();
        s
    }

    /// The border is drawn from 1..=8, small enough that common divisors
    /// in the domain can fall on either side of it.
    fn generate(rng: &mut rand::rngs::StdRng) -> (r: Self)
        ensures
            r.with >= 1,
            1 <= r.border <= 8,
    {
        let with = rand_u8_between(rng, 1, 255);
        let border = rand_u8_between(rng, 1, 8);
        let comparison = rand_comparison(rng);
        MaxGCDWith { with, border, comparison }
    }
}

/// Primality of the guess matches `is_prime`; zero and one are not prime.
#[derive(Clone, Copy)]
pub struct Prime {
    pub is_prime: bool,
}

impl Property for Prime {
    open spec fn wf(&self) -> bool {
        true
    }

    open spec fn spec_fulfilled(&self, by: u8) -> bool {
        is_prime(by as nat) == self.is_prime
    }

    open spec fn spec_description(&self) -> Seq<char> {
        Seq::<char>::empty()
    }

    fn fulfilled(&self, by: u8) -> (r: bool) {
        check_prime(by) == self.is_prime
    }

    fn debug_print(&self) -> (s: String) {
        let s = String::new();
        s
    }

    fn generate(rng: &mut rand::rngs::StdRng) -> (r: Self) {
        Prime { is_prime: rand_coin(rng) }
    }
}

/// One property of any of the eight kinds, as a closed tagged union.
#[derive(Clone, Copy)]
pub enum GeneralProperty {
    HasBase(HasBase),
    SumDigits(SumDigits),
    NumDigits(NumDigits),
    HasFactor(HasFactor),
    NumFactor(NumFactor),
    MaxGCDWith(MaxGCDWith),
    Prime(Prime),
    Sequence(Sequence),
}

impl GeneralProperty {
    /// The wrapped property's parameters lie within their domains.
    pub open spec fn wf(&self) -> bool {
        match *self {
            GeneralProperty::HasBase(p) => p.wf(),
            GeneralProperty::SumDigits(p) => p.wf(),
            GeneralProperty::NumDigits(p) => p.wf(),
            GeneralProperty::HasFactor(p) => p.wf(),
            GeneralProperty::NumFactor(p) => p.wf(),
            GeneralProperty::MaxGCDWith(p) => p.wf(),
            GeneralProperty::Prime(p) => p.wf(),
            GeneralProperty::Sequence(p) => p.wf(),
        }
    }

    /// The predicate the wrapped property stands for.
    pub open spec fn spec_fulfilled(&self, by: u8) -> bool {
        match *self {
            GeneralProperty::HasBase(p) => p.spec_fulfilled(by),
            GeneralProperty::SumDigits(p) => p.spec_fulfilled(by),
            GeneralProperty::NumDigits(p) => p.spec_fulfilled(by),
            GeneralProperty::HasFactor(p) => p.spec_fulfilled(by),
            GeneralProperty::NumFactor(p) => p.spec_fulfilled(by),
            GeneralProperty::MaxGCDWith(p) => p.spec_fulfilled(by),
            GeneralProperty::Prime(p) => p.spec_fulfilled(by),
            GeneralProperty::Sequence(p) => p.spec_fulfilled(by),
        }
    }

    /// The wrapped property's descriptive rendering.
    pub open spec fn spec_description(&self) -> Seq<char> {
        match *self {
            GeneralProperty::HasBase(p) => p.spec_description(),
            GeneralProperty::SumDigits(p) => p.spec_description(),
            GeneralProperty::NumDigits(p) => p.spec_description(),
            GeneralProperty::HasFactor(p) => p.spec_description(),
            GeneralProperty::NumFactor(p) => p.spec_description(),
            GeneralProperty::MaxGCDWith(p) => p.spec_description(),
            GeneralProperty::Prime(p) => p.spec_description(),
            GeneralProperty::Sequence(p) => p.spec_description(),
        }
    }

    /// The property is of the representation family.
    pub open spec fn is_representation(&self) -> bool {
        (*self) is HasBase || (*self) is SumDigits || (*self) is NumDigits
    }

    /// The property is of the factors family.
    pub open spec fn is_factor_kind(&self) -> bool {
        (*self) is HasFactor || (*self) is NumFactor || (*self) is MaxGCDWith || (*self) is Prime
    }

    /// Whether the guess `by` satisfies the property.
    pub fn fulfilled(&self, by: u8) -> (r: bool)
        requires
            self.wf(),
        ensures
            r == self.spec_fulfilled(by),
    {
        match self {
            GeneralProperty::HasBase(p) => p.fulfilled(by),
            GeneralProperty::SumDigits(p) => p.fulfilled(by),
            GeneralProperty::NumDigits(p) => p.fulfilled(by),
            GeneralProperty::HasFactor(p) => p.fulfilled(by),
            GeneralProperty::NumFactor(p) => p.fulfilled(by),
            GeneralProperty::MaxGCDWith(p) => p.fulfilled(by),
            GeneralProperty::Prime(p) => p.fulfilled(by),
            GeneralProperty::Sequence(p) => p.fulfilled(by),
        }
    }

    /// The descriptive rendering of the property.
    pub fn debug_print(&self) -> (s: String)
        ensures
            s@ == self.spec_description(),
    {
        match self {
            GeneralProperty::HasBase(p) => p.debug_print(),
            GeneralProperty::SumDigits(p) => p.debug_print(),
            GeneralProperty::NumDigits(p) => p.debug_print(),
            GeneralProperty::HasFactor(p) => p.debug_print(),
            GeneralProperty::NumFactor(p) => p.debug_print(),
            GeneralProperty::MaxGCDWith(p) => p.debug_print(),
            GeneralProperty::Prime(p) => p.debug_print(),
            GeneralProperty::Sequence(p) => p.debug_print(),
        }
    }

    /// Whether the wrapped parameters lie within their domains; the
    /// check a constructor runs before accepting a hand-built property.
    pub fn is_valid(&self) -> (r: bool)
        ensures
            r == self.wf(),
    {
        match self {
            GeneralProperty::HasBase(p) => 2 <= p.base && p.base <= 36 && p.amount <= 3,
            GeneralProperty::SumDigits(p) => 4 <= p.sum && p.sum <= 24,
            GeneralProperty::NumDigits(p) => p.amount <= 3,
            GeneralProperty::HasFactor(p) => p.factor >= 1,
            GeneralProperty::NumFactor(_) => true,
            GeneralProperty::MaxGCDWith(p) => p.with >= 1,
            GeneralProperty::Prime(_) => true,
            GeneralProperty::Sequence(_) => true,
        }
    }

    /// Draw one property. `family mod 3` picks the family —
    /// representation, factors, sequence, in that order — and the kind
    /// within the family is drawn uniformly.
    pub fn generate(family: u8, rng: &mut rand::rngs::StdRng) -> (r: Self)
        ensures
            r.wf(),
            family % 3 == 0 ==> r.is_representation(),
            family % 3 == 1 ==> r.is_factor_kind(),
            family % 3 == 2 ==> r is Sequence,
    {
        let f = family % 3;
        if f == 0 {
            let k = rand_u8_between(rng, 0, 2);
            if k == 0 {
                GeneralProperty::HasBase(HasBase::generate(rng))
            } else if k == 1 {
                GeneralProperty::SumDigits(SumDigits::generate(rng))
            } else {
                GeneralProperty::NumDigits(NumDigits::generate(rng))
            }
        } else if f == 1 {
            let k = rand_u8_between(rng, 0, 3);
            if k == 0 {
                GeneralProperty::HasFactor(HasFactor::generate(rng))
            } else if k == 1 {
                GeneralProperty::NumFactor(NumFactor::generate(rng))
            } else if k == 2 {
                GeneralProperty::MaxGCDWith(MaxGCDWith::generate(rng))
            } else {
                GeneralProperty::Prime(Prime::generate(rng))
            }
        } else {
            GeneralProperty::Sequence(Sequence::generate(rng))
        }
    }
}

} // verus!
