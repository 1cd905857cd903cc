//! Randomness for the property factory. Every draw goes through one of
//! the wrappers below, so generation takes an explicit, seedable source
//! and stays reproducible in tests.

use vstd::prelude::*;

verus! {

#[verifier::external_type_specification]
#[verifier::external_body]
pub struct ExStdRng(rand::rngs::StdRng);

/// Relies on rand::Rng::gen_range over the inclusive range `lo..=hi`:
/// it panics only on an empty range, which the precondition rules out,
/// and otherwise returns a value within the bounds. Which value comes
/// back is left open.
#[verifier::external_body]
pub(crate) fn rand_u8_between(rng: &mut rand::rngs::StdRng, lo: u8, hi: u8) -> (r: u8)
    requires
        lo <= hi,
    ensures
        lo <= r <= hi,
{
    rand::Rng::gen_range(rng, lo..=hi)
}

/// Relies on rand::Rng::gen with the Standard distribution on bool,
/// which yields an unbiased truth value; nothing is promised of the
/// outcome.
#[verifier::external_body]
pub(crate) fn rand_coin(rng: &mut rand::rngs::StdRng) -> (r: bool)
{
    rand::Rng::gen::<bool>(rng)
}

} // verus!
