//! Bounded membership oracles for four integer sequences, covering the
//! guessing domain 0..=255, and the sequence property built on them.

use crate::properties::Property;
use crate::rng::{rand_coin, rand_u8_between};
use vstd::arithmetic::power2::{lemma2_to64, lemma_pow2_strictly_increases, pow2};
use vstd::prelude::*;
use vstd::string::StringExecFns;

verus! {

/// `x` indexes the triangular number `by`: `x^2 + x == 2 * by`.
pub open spec fn triangle_index_of(x: int, by: u8) -> bool {
    x * x + x == 2 * (by as int)
}

/// `by` is a triangular number `T(x)` for some `x` up to 22, which covers
/// the whole domain (`T(22) == 253`).
pub open spec fn in_triangular(by: u8) -> bool {
    exists|x: int| 0 <= x <= 22 && #[trigger] triangle_index_of(x, by)
}

/// The Fibonacci sequence, starting 0, 1, 1, 2, 3, ...
pub open spec fn fib(k: nat) -> nat
    decreases k,
{
    if k == 0 {
        0
    } else if k == 1 {
        1
    } else {
        fib((k - 1) as nat) + fib((k - 2) as nat)
    }
}

/// `by` is one of the first fifteen Fibonacci terms; the later terms lie
/// above the domain ceiling.
pub open spec fn in_fibbonacci(by: u8) -> bool {
    exists|k: nat| k < 15 && #[trigger] fib(k) == by
}

/// `by` is a power of two with exponent up to 6; higher powers are never
/// drawn for the domain.
pub open spec fn in_two_powers(by: u8) -> bool {
    exists|k: nat| k <= 6 && #[trigger] pow2(k) == by
}

/// `a` is a square root of `by`.
pub open spec fn square_root_of(a: int, by: u8) -> bool {
    a * a == by as int
}

/// `by` is the square of some `a` in 1..=15, which covers the whole
/// domain above zero (`15^2 == 225`).
pub open spec fn in_square_num(by: u8) -> bool {
    exists|a: int| 1 <= a <= 15 && #[trigger] square_root_of(a, by)
}

/// The last Fibonacci terms an iteration over the domain can touch.
proof fn lemma_fib_concrete()
    ensures
        fib(15) == 610,
        fib(16) == 987,
{
    reveal_with_fuel(fib, 17);
}

/// The Fibonacci sequence never decreases.
proof fn lemma_fib_is_monotonic(i: nat, j: nat)
    requires
        i <= j,
    ensures
        fib(i) <= fib(j),
    decreases j,
{
    if i < j {
        if j >= 2 {
            lemma_fib_is_monotonic(i, (j - 1) as nat);
        }
    }
}

/// Whether `by` is a triangular number.
pub fn check_in_triangular(by: u8) -> (r: bool)
    ensures
        r == in_triangular(by),
{
    let mut x: u16 = 0;
    while x <= 22
        invariant
            x <= 23,
            forall|y: int| 0 <= y < x ==> !#[trigger] triangle_index_of(y, by),
        decreases 23 - x,
    {
        assert(x * x + x <= 506) by (nonlinear_arith)
            requires
                x <= 22,
        ;
        if x * x + x == 2 * (by as u16) {
            assert(triangle_index_of(x as int, by));
            return true;
        }
        x = x + 1;
    }
    false
}

/// Whether `by` is one of the first fifteen Fibonacci terms.
pub fn check_in_fibbonacci(by: u8) -> (r: bool)
    ensures
        r == in_fibbonacci(by),
{
    let mut a: u16 = 0;
    let mut b: u16 = 1;
    let mut k: u8 = 0;
    proof {
        lemma_fib_concrete();
    }
    while k < 15
        invariant
            k <= 15,
            a == fib(k as nat),
            b == fib((k + 1) as nat),
            forall|j: nat| j < k ==> #[trigger] fib(j) != by,
            fib(15) == 610 && fib(16) == 987,
        decreases 15 - k,
    {
        if a == by as u16 {
            assert(fib(k as nat) == by);
            return true;
        }
        proof {
            lemma_fib_is_monotonic(k as nat, 15);
            lemma_fib_is_monotonic((k + 1) as nat, 16);
        }
        let c = a + b;
        a = b;
        b = c;
        k = k + 1;
    }
    false
}

/// Whether `by` is a power of two with exponent up to 6.
pub fn check_in_two_powers(by: u8) -> (r: bool)
    ensures
        r == in_two_powers(by),
{
    let mut a: u16 = 1;
    let mut k: u8 = 0;
    proof {
        lemma2_to64();
    }
    while k < 7
        invariant
            k <= 7,
            a == pow2(k as nat),
            forall|j: nat| j < k ==> #[trigger] pow2(j) != by,
        decreases 7 - k,
    {
        if a == by as u16 {
            assert(pow2(k as nat) == by);
            return true;
        }
        proof {
            lemma2_to64();
            lemma_pow2_strictly_increases(k as nat, 8);
        }
        a = a * 2;
        k = k + 1;
    }
    false
}

/// Whether `by` is a perfect square of a root in 1..=15.
pub fn check_in_square_num(by: u8) -> (r: bool)
    ensures
        r == in_square_num(by),
{
    let mut a: u8 = 1;
    while a < 16
        invariant
            1 <= a <= 16,
            forall|y: int| 1 <= y < a ==> !#[trigger] square_root_of(y, by),
        decreases 16 - a,
    {
        assert(a * a <= 225) by (nonlinear_arith)
            requires
                a <= 15,
        ;
        if a * a == by {
            assert(square_root_of(a as int, by));
            return true;
        }
        a = a + 1;
    }
    false
}

/// Membership of the guess in one named sequence, demanded (`true`) or
/// ruled out (`false`) by the carried flag.
#[derive(Clone, Copy)]
pub enum Sequence {
    Triangular(bool),
    Fibbonacci(bool),
    TwoPowers(bool),
    SquareNums(bool),
}

impl Property for Sequence {
    open spec fn wf(&self) -> bool {
        true
    }

    open spec fn spec_fulfilled(&self, by: u8) -> bool {
        match *self {
            Sequence::Triangular(included) => included == in_triangular(by),
            Sequence::Fibbonacci(included) => included == in_fibbonacci(by),
            Sequence::TwoPowers(included) => included == in_two_powers(by),
            Sequence::SquareNums(included) => included == in_square_num(by),
        }
    }

    open spec fn spec_description(&self) -> Seq<char> {
        "Input is in the "@ + (match *self {
            Sequence::Triangular(_) => "triangular"@,
            Sequence::Fibbonacci(_) => "fibbonacci"@,
            Sequence::TwoPowers(_) => "powers of two"@,
            Sequence::SquareNums(_) => "square numbers"@,
        }) + " sequence"@
    }

    fn fulfilled(&self, by: u8) -> (r: bool) {
        match self {
            Sequence::Triangular(included) => *included == check_in_triangular(by),
            Sequence::Fibbonacci(included) => *included == check_in_fibbonacci(by),
            Sequence::TwoPowers(included) => *included == check_in_two_powers(by),
            Sequence::SquareNums(included) => *included == check_in_square_num(by),
        }
    }

    fn debug_print(&self) -> (s: String) {
        let mut s = String::new();
        s.append("Input is in the ");
        s.append(
            match self {
                Sequence::Triangular(_) => "triangular",
                Sequence::Fibbonacci(_) => "fibbonacci",
                Sequence::TwoPowers(_) => "powers of two",
                Sequence::SquareNums(_) => "square numbers",
            },
        );
        s.append(" sequence");
        proof {
            assert(s@ =~= self.spec_description());
        }
        s
    }

    fn generate(rng: &mut rand::rngs::StdRng) -> (r: Self) {
        let rnum = rand_u8_between(rng, 0, 3);
        let rbool = rand_coin(rng);
        if rnum == 0 {
            Sequence::Triangular(rbool)
        } else if rnum == 1 {
            Sequence::Fibbonacci(rbool)
        } else if rnum == 2 {
            Sequence::TwoPowers(rbool)
        } else {
            Sequence::SquareNums(rbool)
        }
    }
}

/// Every sequence property holds exactly when the carried flag agrees
/// with membership: demanded sequences must contain the guess, excluded
/// ones must not.
pub proof fn lemma_sequence_fulfillment(included: bool, by: u8)
    ensures
        Sequence::Triangular(included).spec_fulfilled(by) == (included == in_triangular(by)),
        Sequence::Fibbonacci(included).spec_fulfilled(by) == (included == in_fibbonacci(by)),
        Sequence::TwoPowers(included).spec_fulfilled(by) == (included == in_two_powers(by)),
        Sequence::SquareNums(included).spec_fulfilled(by) == (included == in_square_num(by)),
{
}

} // verus!
