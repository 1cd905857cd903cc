//! Core of a number-deduction puzzle: a secret integer in the guessing
//! domain 0..=255 is described by a randomized, ordered set of boolean
//! properties, and every guess is scored into a bit-packed hint, one bit
//! per property.

pub mod digits;
pub mod factors;
pub mod problem;
pub mod properties;
pub mod rng;
pub mod sequences;
pub mod text;
