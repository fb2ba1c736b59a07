//! Tests of the fixed-point scalar arithmetic and the integer square root.

use mylittlemodel::model::weights::isqrt;
use mylittlemodel::scalar::Scalar;

fn sm(micros: i64) -> Scalar {
    Scalar::from_micros(micros)
}

#[test]
fn scalar_add_sub_exact() {
    assert_eq!(sm(1_500_000).add(sm(-700_000)).to_micros(), 800_000);
    assert_eq!(sm(1_500_000).sub(sm(700_000)).to_micros(), 800_000);
    assert_eq!(Scalar::from_int(3).to_micros(), 3_000_000);
    assert_eq!(Scalar::one().to_micros(), 1_000_000);
    assert_eq!(Scalar::zero().to_micros(), 0);
    assert_eq!(sm(250_000).neg().to_micros(), -250_000);
}

#[test]
fn scalar_mul_truncates_toward_zero() {
    // 1.5 * 0.333333 = 0.4999995, which truncates to 0.499999 units.
    assert_eq!(sm(1_500_000).mul(sm(333_333)).to_micros(), 499_999);
    // The negative product truncates toward zero, not downward.
    assert_eq!(sm(-1_500_000).mul(sm(333_333)).to_micros(), -499_999);
    assert_eq!(sm(2_000_000).mul(sm(500_000)).to_micros(), 1_000_000);
    assert_eq!(sm(0).mul(sm(123_456)).to_micros(), 0);
}

#[test]
fn scalar_saturates_at_range_edge() {
    let top = sm(i64::MAX);
    assert_eq!(top.add(Scalar::one()).to_micros(), i64::MAX);
    assert_eq!(top.neg().sub(Scalar::one()).to_micros(), -i64::MAX);
    assert_eq!(top.mul(top).to_micros(), i64::MAX);
    assert_eq!(top.mul(top.neg()).to_micros(), -i64::MAX);
}

#[test]
fn scalar_comparisons() {
    assert!(sm(-1).lt(sm(0)));
    assert!(!sm(5).lt(sm(5)));
    assert!(sm(-1).is_negative());
    assert!(!sm(0).is_negative());
}

#[test]
fn isqrt_exact_values() {
    assert_eq!(isqrt(0), 0);
    assert_eq!(isqrt(1), 1);
    assert_eq!(isqrt(15), 3);
    assert_eq!(isqrt(16), 4);
    assert_eq!(isqrt(1_000_000_000_000), 1_000_000);
    assert_eq!(isqrt(u64::MAX), 4_294_967_295);
}
