//! Divisibility arithmetic over the guessing domain: greatest common
//! divisors, counting positive divisors, and primality.

use vstd::prelude::*;

verus! {

/// Greatest common divisor by the Euclidean recursion; `spec_gcd(a, 0)`
/// is `a`.
pub open spec fn spec_gcd(a: nat, b: nat) -> nat
    decreases b,
{
    if b == 0 {
        a
    } else {
        spec_gcd(b, a % b)
    }
}

/// How many of `1..=k` divide `n`.
pub open spec fn divisors_up_to(n: nat, k: nat) -> nat
    decreases k,
{
    if k == 0 {
        0
    } else {
        divisors_up_to(n, (k - 1) as nat) + (if n % k == 0 {
            1nat
        } else {
            0nat
        })
    }
}

/// Number of positive divisors of `n`; zero for `n == 0`, whose divisor
/// set is unbounded and which the count therefore leaves empty.
pub open spec fn divisor_count(n: nat) -> nat {
    divisors_up_to(n, n)
}

/// `n` is prime: at least two, and no smaller value above one divides it.
pub open spec fn is_prime(n: nat) -> bool {
    n >= 2 && forall|d: nat| 2 <= d < n ==> #[trigger] (n % d) != 0
}

/// Greatest common divisor of `a` and `b`.
pub fn gcd(a: u8, b: u8) -> (r: u8)
    ensures
        r == spec_gcd(a as nat, b as nat),
{
    let mut x: u8 = a;
    let mut y: u8 = b;
    while y != 0
        invariant
            spec_gcd(x as nat, y as nat) == spec_gcd(a as nat, b as nat),
        decreases y,
    {
        let t = x % y;
        x = y;
        y = t;
    }
    x
}

/// Number of positive divisors of `n`.
pub fn count_divisors(n: u8) -> (r: u8)
    ensures
        r == divisor_count(n as nat),
{
    let mut d: u16 = 1;
    let mut count: u8 = 0;
    while d <= n as u16
        invariant
            1 <= d <= n as u16 + 1,
            count == divisors_up_to(n as nat, (d - 1) as nat),
            count < d,
        decreases n as u16 + 1 - d,
    {
        if n % (d as u8) == 0 {
            count = count + 1;
        }
        d = d + 1;
    }
    count
}

/// Whether `n` is prime; zero and one are not.
pub fn check_prime(n: u8) -> (r: bool)
    ensures
        r == is_prime(n as nat),
{
    if n < 2 {
        return false;
    }
    let mut d: u8 = 2;
    while d < n
        invariant
            2 <= d <= n,
            forall|e: nat| 2 <= e < d ==> #[trigger] ((n as nat) % e) != 0,
        decreases n - d,
    {
        if n % d == 0 {
            return false;
        }
        d = d + 1;
    }
    true
}

} // verus!
