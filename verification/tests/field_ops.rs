//! Exact-value tests of the prime-field backend.
use zkpd::field::{Scalar61, MODULUS};
use zkpd::FiniteField;

#[test]
fn add_wraps_at_the_modulus() {
    let top = Scalar61::from_u64(MODULUS - 1);
    let one = Scalar61::one();
    assert_eq!(top.add(&one), Scalar61::zero());
}

#[test]
fn sub_wraps_below_zero() {
    let zero = Scalar61::zero();
    let one = Scalar61::one();
    assert_eq!(zero.sub(&one), Scalar61::from_u64(MODULUS - 1));
}

#[test]
fn mul_exact_product() {
    let million = Scalar61::from_usize(1_000_000);
    assert_eq!(million.mul(&million), Scalar61::from_u64(1_000_000_000_000));
}

#[test]
fn mul_of_minus_one_squares_to_one() {
    let minus_one = Scalar61::from_u64(MODULUS - 1);
    assert_eq!(minus_one.mul(&minus_one), Scalar61::one());
}

#[test]
fn div_exact_quotient() {
    let ten = Scalar61::from_usize(10);
    let two = Scalar61::from_usize(2);
    assert_eq!(ten.div(&two), Scalar61::from_usize(5));
}

#[test]
fn div_then_mul_round_trip() {
    let seven = Scalar61::from_usize(7);
    let three = Scalar61::from_usize(3);
    assert_eq!(seven.div(&three).mul(&three), seven);
}

#[test]
fn horner_fold_step() {
    let partial = Scalar61::from_usize(2);
    let coef = Scalar61::from_usize(3);
    let point = Scalar61::from_usize(4);
    assert_eq!(Scalar61::horner_fold(&partial, &coef, &point), Scalar61::from_usize(11));
}

#[test]
fn pow_exact_value() {
    let two = Scalar61::from_usize(2);
    assert_eq!(two.pow_u64(10), Scalar61::from_usize(1024));
}

#[test]
fn from_u64_reduces_the_modulus_to_zero() {
    assert_eq!(Scalar61::from_u64(MODULUS), Scalar61::zero());
}

#[test]
fn random_draws_are_not_constant() {
    let a = Scalar61::random();
    let b = Scalar61::random();
    let c = Scalar61::random();
    let d = Scalar61::random();
    assert!(!(a == b && b == c && c == d));
}
