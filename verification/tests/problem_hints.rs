use guessing_game::problem::Problem;
use guessing_game::properties::{GeneralProperty, HasBase, HasFactor, Prime, SumDigits};
use guessing_game::sequences::Sequence;
use rand::SeedableRng;
use std::cmp::Ordering;

fn rng_from(seed: u64) -> rand::rngs::StdRng {
    rand::rngs::StdRng::seed_from_u64(seed)
}

#[test]
fn hint_packs_three_properties() {
    // all three hold of 8: divisible by 4, a Fibonacci term, not prime
    let all = Problem::new(vec![
        GeneralProperty::HasFactor(HasFactor { factor: 4, contains: true }),
        GeneralProperty::Sequence(Sequence::Fibbonacci(true)),
        GeneralProperty::Prime(Prime { is_prime: false }),
    ])
    .unwrap();
    assert_eq!(all.check(8), 0b111);

    // same with the middle property flipped: only bit 1 goes out
    let mid = Problem::new(vec![
        GeneralProperty::HasFactor(HasFactor { factor: 4, contains: true }),
        GeneralProperty::Sequence(Sequence::Fibbonacci(false)),
        GeneralProperty::Prime(Prime { is_prime: false }),
    ])
    .unwrap();
    assert_eq!(mid.check(8), 0b101);
}

#[test]
fn empty_problem_hints_zero() {
    let p = Problem::new(Vec::new()).unwrap();
    assert_eq!(p.check(123), 0);
}

#[test]
fn nine_properties_rejected() {
    let mut rng = rng_from(1);
    assert!(Problem::generate(9, &mut rng).is_none());
    let nine = vec![GeneralProperty::Prime(Prime { is_prime: true }); 9];
    assert!(Problem::new(nine).is_none());
}

#[test]
fn out_of_range_parameters_rejected() {
    let zero_factor = vec![GeneralProperty::HasFactor(HasFactor { factor: 0, contains: true })];
    assert!(Problem::new(zero_factor).is_none());
    let bad_base = vec![GeneralProperty::HasBase(HasBase { character: '1', amount: 1, base: 37 })];
    assert!(Problem::new(bad_base).is_none());
    let low_sum = vec![GeneralProperty::SumDigits(SumDigits { sum: 3, comparison: Ordering::Equal })];
    assert!(Problem::new(low_sum).is_none());
}

#[test]
fn check_is_deterministic() {
    let mut rng = rng_from(42);
    let p = Problem::generate(8, &mut rng).unwrap();
    for by in 0u8..=255 {
        let first = p.check(by);
        let second = p.check(by);
        assert_eq!(first, second);
    }
}

#[test]
fn generation_is_reproducible_from_a_seed() {
    let mut rng1 = rng_from(7);
    let mut rng2 = rng_from(7);
    let p1 = Problem::generate(8, &mut rng1).unwrap();
    let p2 = Problem::generate(8, &mut rng2).unwrap();
    for by in 0u8..=255 {
        assert_eq!(p1.check(by), p2.check(by));
    }
}

#[test]
fn hint_bits_follow_each_property() {
    let mut rng = rng_from(99);
    let p = Problem::generate(6, &mut rng).unwrap();
    for by in 0u8..=255 {
        let hint = p.check(by);
        for i in 0..p.len() {
            let bit = (hint >> i) & 1;
            assert_eq!(bit == 1, p.property_at(i).fulfilled(by));
        }
        // no bits beyond the problem length
        assert_eq!(hint >> p.len(), 0);
    }
}

#[test]
fn hint_bit_ignores_other_properties() {
    // two problems agreeing only at position 1
    let shared = GeneralProperty::Sequence(Sequence::TwoPowers(true));
    let p1 = Problem::new(vec![
        GeneralProperty::HasFactor(HasFactor { factor: 3, contains: true }),
        shared.clone(),
        GeneralProperty::Prime(Prime { is_prime: true }),
    ])
    .unwrap();
    let p2 = Problem::new(vec![
        GeneralProperty::HasFactor(HasFactor { factor: 5, contains: false }),
        shared,
        GeneralProperty::Sequence(Sequence::SquareNums(false)),
    ])
    .unwrap();
    for by in 0u8..=255 {
        assert_eq!((p1.check(by) >> 1) & 1, (p2.check(by) >> 1) & 1);
    }
}

#[test]
fn generate_walks_families_round_robin() {
    let mut rng = rng_from(5);
    let p = Problem::generate(8, &mut rng).unwrap();
    assert_eq!(p.len(), 8);
    for i in 0..p.len() {
        let prop = p.property_at(i);
        match i % 3 {
            0 => assert!(matches!(
                prop,
                GeneralProperty::HasBase(_)
                    | GeneralProperty::SumDigits(_)
                    | GeneralProperty::NumDigits(_)
            )),
            1 => assert!(matches!(
                prop,
                GeneralProperty::HasFactor(_)
                    | GeneralProperty::NumFactor(_)
                    | GeneralProperty::MaxGCDWith(_)
                    | GeneralProperty::Prime(_)
            )),
            _ => assert!(matches!(prop, GeneralProperty::Sequence(_))),
        }
    }
}

#[test]
fn generate_accepts_all_lengths_up_to_eight() {
    let mut rng = rng_from(11);
    for length in 0u8..=8 {
        let p = Problem::generate(length, &mut rng).unwrap();
        assert_eq!(p.len(), length as usize);
    }
}
