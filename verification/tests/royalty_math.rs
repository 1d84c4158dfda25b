use cep82::amount::{Amount, Percent};
use cep82::error::CustodialError;
use cep82::royalty::{RoyaltyStep, RoyaltyStructure};

fn amount(x: u64) -> Amount {
    Amount::from_u64(x)
}

#[test]
fn flat_step_charges_the_constant() {
    let structure = RoyaltyStructure::new(vec![RoyaltyStep::Flat { amount: amount(100) }]);
    let royalty = structure.calculate_total_royalty(amount(1000)).unwrap();
    assert!(royalty.eq_value(&amount(100)));
}

#[test]
fn percentage_step_charges_basis_points() {
    let structure = RoyaltyStructure::new(vec![RoyaltyStep::Percentage {
        percent: Percent::from_u64(500),
    }]);
    let royalty = structure.calculate_total_royalty(amount(1000)).unwrap();
    assert!(royalty.eq_value(&amount(50)));
}

#[test]
fn minimum_step_charges_nothing_by_itself() {
    let structure = RoyaltyStructure::new(vec![RoyaltyStep::Minimum { amount: amount(500) }]);
    let royalty = structure.calculate_total_royalty(amount(100)).unwrap();
    assert!(royalty.eq_value(&amount(0)));
}

#[test]
fn steps_accumulate_left_to_right() {
    let structure = RoyaltyStructure::new(vec![
        RoyaltyStep::Flat { amount: amount(100) },
        RoyaltyStep::Percentage { percent: Percent::from_u64(500) },
    ]);
    let royalty = structure.calculate_total_royalty(amount(1000)).unwrap();
    assert!(royalty.eq_value(&amount(150)));
}

#[test]
fn royalty_is_deterministic() {
    let structure = RoyaltyStructure::new(vec![
        RoyaltyStep::Minimum { amount: amount(10) },
        RoyaltyStep::Flat { amount: amount(7) },
        RoyaltyStep::Percentage { percent: Percent::from_u64(250) },
    ]);
    let first = structure.calculate_total_royalty(amount(123456)).unwrap();
    let second = structure.calculate_total_royalty(amount(123456)).unwrap();
    assert!(first.eq_value(&second));
    assert!(first.eq_value(&amount(7 + 123456 * 250 / 10000)));
}

#[test]
fn royalty_is_monotone_in_payment() {
    let structure = RoyaltyStructure::new(vec![
        RoyaltyStep::Flat { amount: amount(3) },
        RoyaltyStep::Percentage { percent: Percent::from_u64(100) },
    ]);
    let mut previous = structure.calculate_total_royalty(amount(0)).unwrap();
    for payment in [1u64, 10, 99, 100, 101, 10_000, 1_000_000] {
        let next = structure.calculate_total_royalty(amount(payment)).unwrap();
        assert!(!next.lt(&previous));
        previous = next;
    }
}

#[test]
fn royalty_overflow_aborts_whole_computation() {
    let top = Amount { limbs: [u64::MAX; 8] };
    let structure = RoyaltyStructure::new(vec![
        RoyaltyStep::Flat { amount: top },
        RoyaltyStep::Flat { amount: amount(1) },
    ]);
    let r = structure.calculate_total_royalty(amount(0));
    assert_eq!(r.unwrap_err(), CustodialError::Overflow);
}

#[test]
fn percentage_overflow_aborts() {
    let top = Percent { limbs: [u64::MAX; 4] };
    let structure = RoyaltyStructure::new(vec![RoyaltyStep::Percentage { percent: top }]);
    let top_payment = Amount { limbs: [u64::MAX; 8] };
    let r = structure.calculate_total_royalty(top_payment);
    assert_eq!(r.unwrap_err(), CustodialError::Overflow);
}

#[test]
fn amount_arithmetic_matches_values() {
    let a = amount(200);
    let b = amount(42);
    assert!(a.checked_add(&b).unwrap().eq_value(&amount(242)));
    assert!(a.checked_sub(&b).unwrap().eq_value(&amount(158)));
    assert!(a.checked_mul(&b).unwrap().eq_value(&amount(8400)));
    assert!(a.checked_div(&b).unwrap().eq_value(&amount(4)));
    assert!(b.lt(&a));
    assert!(!a.lt(&b));
    assert!(b.checked_sub(&a).is_none());
    assert!(a.checked_div(&amount(0)).is_none());
}

#[test]
fn amount_add_overflows_at_512_bits() {
    let top = Amount { limbs: [u64::MAX; 8] };
    assert!(top.checked_add(&Amount::from_u64(1)).is_none());
    assert!(top.checked_mul(&Amount::from_u64(2)).is_none());
}

#[test]
fn amount_carries_across_limbs() {
    let low_max = Amount { limbs: [u64::MAX, 0, 0, 0, 0, 0, 0, 0] };
    let sum = low_max.checked_add(&Amount::from_u64(1)).unwrap();
    let expected = Amount { limbs: [0, 1, 0, 0, 0, 0, 0, 0] };
    assert!(sum.eq_value(&expected));
}
