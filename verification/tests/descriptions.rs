use guessing_game::properties::{
    GeneralProperty, HasBase, HasFactor, MaxGCDWith, NumDigits, NumFactor, Prime, Property,
    SumDigits,
};
use guessing_game::sequences::Sequence;
use std::cmp::Ordering;

#[test]
fn sum_digits_descriptions() {
    assert_eq!(
        SumDigits { sum: 10, comparison: Ordering::Equal }.debug_print(),
        "Digits sum to exactly 10"
    );
    assert_eq!(
        SumDigits { sum: 5, comparison: Ordering::Greater }.debug_print(),
        "Digits sum to more than 5"
    );
    assert_eq!(
        SumDigits { sum: 24, comparison: Ordering::Less }.debug_print(),
        "Digits sum to less than 24"
    );
}

#[test]
fn num_digits_descriptions() {
    assert_eq!(
        NumDigits { amount: 2, comparison: Ordering::Greater }.debug_print(),
        "# Digits > 2"
    );
    assert_eq!(NumDigits { amount: 3, comparison: Ordering::Less }.debug_print(), "# Digits < 3");
    assert_eq!(NumDigits { amount: 2, comparison: Ordering::Equal }.debug_print(), "# Digits = 2");
}

#[test]
fn sequence_descriptions() {
    assert_eq!(
        Sequence::Triangular(true).debug_print(),
        "Input is in the triangular sequence"
    );
    assert_eq!(
        Sequence::Fibbonacci(false).debug_print(),
        "Input is in the fibbonacci sequence"
    );
    assert_eq!(
        Sequence::TwoPowers(true).debug_print(),
        "Input is in the powers of two sequence"
    );
    assert_eq!(
        Sequence::SquareNums(true).debug_print(),
        "Input is in the square numbers sequence"
    );
}

#[test]
fn has_base_description() {
    assert_eq!(
        HasBase { character: '7', amount: 1, base: 10 }.debug_print(),
        "Input contains character '7' 1 times in base 10"
    );
    assert_eq!(
        HasBase { character: 'z', amount: 3, base: 36 }.debug_print(),
        "Input contains character 'z' 3 times in base 36"
    );
}

#[test]
fn undescribed_kinds_render_empty() {
    assert_eq!(HasFactor { factor: 3, contains: true }.debug_print(), "");
    assert_eq!(NumFactor { num: 2, comparison: Ordering::Equal }.debug_print(), "");
    assert_eq!(
        MaxGCDWith { with: 6, border: 2, comparison: Ordering::Greater }.debug_print(),
        ""
    );
    assert_eq!(Prime { is_prime: true }.debug_print(), "");
}

#[test]
fn dispatch_renders_the_wrapped_kind() {
    let p = GeneralProperty::SumDigits(SumDigits { sum: 12, comparison: Ordering::Greater });
    assert_eq!(p.debug_print(), "Digits sum to more than 12");
    let q = GeneralProperty::Sequence(Sequence::Triangular(false));
    assert_eq!(q.debug_print(), "Input is in the triangular sequence");
}
