use guessing_game::properties::{
    HasBase, HasFactor, MaxGCDWith, NumDigits, NumFactor, Prime, Property, SumDigits,
};
use std::cmp::Ordering;

#[test]
fn sum_digits_exact_scenarios() {
    let p = SumDigits { sum: 10, comparison: Ordering::Equal };
    assert!(p.fulfilled(37)); // 3 + 7 == 10
    assert!(!p.fulfilled(40)); // 4 != 10
}

#[test]
fn sum_digits_senses() {
    // digit sum of 255 is 12
    assert!(SumDigits { sum: 11, comparison: Ordering::Greater }.fulfilled(255));
    assert!(SumDigits { sum: 12, comparison: Ordering::Equal }.fulfilled(255));
    assert!(SumDigits { sum: 13, comparison: Ordering::Less }.fulfilled(255));
    assert!(!SumDigits { sum: 12, comparison: Ordering::Less }.fulfilled(255));
    assert!(!SumDigits { sum: 12, comparison: Ordering::Greater }.fulfilled(255));
}

#[test]
fn num_digits_exact_scenarios() {
    let p = NumDigits { amount: 2, comparison: Ordering::Equal };
    assert!(p.fulfilled(45));
    assert!(!p.fulfilled(5));
}

#[test]
fn num_digits_senses() {
    assert!(NumDigits { amount: 1, comparison: Ordering::Greater }.fulfilled(10));
    assert!(!NumDigits { amount: 1, comparison: Ordering::Greater }.fulfilled(9));
    assert!(NumDigits { amount: 3, comparison: Ordering::Less }.fulfilled(99));
    assert!(!NumDigits { amount: 3, comparison: Ordering::Less }.fulfilled(100));
    // zero still has one digit
    assert!(NumDigits { amount: 1, comparison: Ordering::Equal }.fulfilled(0));
}

#[test]
fn has_factor_scenarios() {
    let p = HasFactor { factor: 4, contains: true };
    assert!(p.fulfilled(8));
    assert!(!p.fulfilled(10));
    assert!(HasFactor { factor: 4, contains: false }.fulfilled(10));
    // everything is a multiple of one, and zero of everything
    assert!(HasFactor { factor: 1, contains: true }.fulfilled(0));
    assert!(HasFactor { factor: 1, contains: true }.fulfilled(255));
    assert!(HasFactor { factor: 200, contains: true }.fulfilled(0));
}

#[test]
fn num_factor_counts() {
    // 12 has divisors 1, 2, 3, 4, 6, 12
    assert!(NumFactor { num: 6, comparison: Ordering::Equal }.fulfilled(12));
    assert!(NumFactor { num: 5, comparison: Ordering::Greater }.fulfilled(12));
    assert!(!NumFactor { num: 6, comparison: Ordering::Less }.fulfilled(12));
    // a prime has exactly two divisors
    assert!(NumFactor { num: 2, comparison: Ordering::Equal }.fulfilled(7));
    // zero's divisor count is empty
    assert!(NumFactor { num: 1, comparison: Ordering::Less }.fulfilled(0));
}

#[test]
fn max_gcd_scenarios() {
    assert!(MaxGCDWith { with: 6, border: 2, comparison: Ordering::Equal }.fulfilled(8));
    assert!(MaxGCDWith { with: 6, border: 1, comparison: Ordering::Greater }.fulfilled(8));
    assert!(MaxGCDWith { with: 5, border: 2, comparison: Ordering::Less }.fulfilled(7));
    // gcd with zero guess is the reference value itself
    assert!(MaxGCDWith { with: 5, border: 5, comparison: Ordering::Equal }.fulfilled(0));
}

#[test]
fn prime_scenarios() {
    let yes = Prime { is_prime: true };
    let no = Prime { is_prime: false };
    for by in [2u8, 3, 5, 7, 13, 251] {
        assert!(yes.fulfilled(by));
        assert!(!no.fulfilled(by));
    }
    for by in [0u8, 1, 4, 9, 255] {
        assert!(!yes.fulfilled(by));
        assert!(no.fulfilled(by));
    }
}

#[test]
fn has_base_scenarios() {
    // 255 renders as "ff" in base 16
    assert!(HasBase { character: 'f', amount: 2, base: 16 }.fulfilled(255));
    assert!(!HasBase { character: 'f', amount: 1, base: 16 }.fulfilled(255));
    // 4 renders as "100" in base 2
    assert!(HasBase { character: '1', amount: 1, base: 2 }.fulfilled(4));
    assert!(HasBase { character: '0', amount: 2, base: 2 }.fulfilled(4));
    // 5 renders as "101" in base 2
    assert!(HasBase { character: '1', amount: 2, base: 2 }.fulfilled(5));
    // decimal rendering has no leading zeros
    assert!(HasBase { character: '0', amount: 0, base: 10 }.fulfilled(37));
    assert!(HasBase { character: '7', amount: 1, base: 10 }.fulfilled(37));
    // 10 renders as the single letter "a" in base 16
    assert!(HasBase { character: 'a', amount: 1, base: 16 }.fulfilled(10));
    // 35 renders as "z" in base 36
    assert!(HasBase { character: 'z', amount: 1, base: 36 }.fulfilled(35));
}
