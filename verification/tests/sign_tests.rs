use twofloat::consts;
use twofloat::sign::FpCategory;
use twofloat::TwoFloat;

fn tf(hi: f64, lo: f64) -> TwoFloat {
    TwoFloat { hi: hi.to_bits(), lo: lo.to_bits() }
}

#[test]
fn abs_test() {
    assert_eq!(tf(0.0, 0.0).abs(), tf(0.0, 0.0));
    assert!(f64::from_bits(tf(0.0, -0.0).abs().lo).is_sign_positive());
    assert!(f64::from_bits(tf(-0.0, 0.0).abs().lo).is_sign_negative());
}

#[test]
fn is_sign_positive_test() {
    assert!(tf(0.0, -0.0).is_sign_positive());
    assert!(!tf(-0.0, 0.0).is_sign_positive());
    assert!(!tf(-0.0, -0.0).is_sign_positive());
    assert!(tf(1.0, -1e-300).is_sign_positive());
    assert!(!tf(-1.0, -1e-300).is_sign_positive());
}

#[test]
fn is_sign_negative_test() {
    assert!(!tf(0.0, -0.0).is_sign_negative());
    assert!(tf(-0.0, 0.0).is_sign_negative());
    assert!(tf(-0.0, -0.0).is_sign_negative());
    assert!(!tf(1.0, -1e-300).is_sign_negative());
    assert!(tf(-1.0, -1e-300).is_sign_negative());
}

#[test]
fn abs_keeps_positive_pairs() {
    let a = tf(1.0, 1.0e-300);
    assert_eq!(a.abs(), a);
}

#[test]
fn abs_flips_negative_pairs() {
    let b = tf(-1.0, 1.0e-300).abs();
    assert_eq!(b, tf(1.0, -1.0e-300));
}

#[test]
fn abs_of_nan_flips_both_signs() {
    let n = tf(f64::NAN, f64::NAN).abs();
    assert!(f64::from_bits(n.hi).is_nan());
    assert!(f64::from_bits(n.hi).is_sign_negative());
}

#[test]
fn copysign_same_sign() {
    let a = tf(3.5, 1e-20);
    let b = tf(1.0, 0.3);
    assert_eq!(a.copysign(b), a);
}

#[test]
fn copysign_negative_sign_operand_negates() {
    let a = tf(-1.0, 1e-200);
    let b = tf(1.0, 0.3);
    assert_eq!(a.copysign(b), a.negate());
    let c = tf(1.0, 1e-200);
    let d = tf(-2.0, 0.0);
    assert_eq!(c.copysign(d), c.negate());
}

#[test]
fn signum_positive() {
    assert_eq!(tf(3.5, 0.0).signum(), consts::one());
}

#[test]
fn signum_of_negative_zero_is_negative_one() {
    assert_eq!(tf(-0.0, 0.0).signum(), consts::neg_one());
}

#[test]
fn signum_of_nan_is_nan() {
    let s = tf(f64::NAN, f64::NAN).signum();
    assert!(f64::from_bits(s.hi).is_nan());
}

#[test]
fn signum_of_invalid_pair_is_nan() {
    // The trailing component is far larger than half an ulp of the leading
    // one, so the pair breaks the invariant.
    let s = tf(1.0, 0.75).signum();
    assert!(f64::from_bits(s.hi).is_nan());
}

#[test]
fn classify_infinity_is_infinite() {
    assert_eq!(consts::infinity().classify(), FpCategory::Infinite);
    assert_eq!(consts::neg_infinity().classify(), FpCategory::Infinite);
}

#[test]
fn classify_below_min_positive_is_subnormal() {
    assert_eq!(tf(1e-308, 0.0).classify(), FpCategory::Subnormal);
    assert!(tf(1e-308, 0.0).is_subnormal());
}

#[test]
fn classify_ordinary_value_is_normal() {
    assert_eq!(tf(12.4, 0.0).classify(), FpCategory::Normal);
    assert_eq!(consts::nan().classify(), FpCategory::Nan);
    assert_eq!(consts::zero().classify(), FpCategory::Zero);
}

#[test]
fn is_normal_test() {
    assert!(consts::min_positive().is_normal());
    assert!(consts::max().is_normal());
    assert!(!consts::zero().is_normal());
    assert!(!consts::nan().is_normal());
    assert!(!consts::infinity().is_normal());
    assert!(!tf(1e-308, 0.0).is_normal());
}

#[test]
fn is_zero_test() {
    assert!(consts::zero().is_zero());
    assert!(consts::neg_zero().is_zero());
    assert!(!consts::pi().is_zero());
    assert!(!tf(1e-300, 0.0).is_zero());
    assert!(!tf(5e-324, 0.0).is_zero());
    assert!(!tf(f64::NAN, f64::NAN).is_zero());
}

#[test]
fn is_infinite_test() {
    assert!(consts::infinity().is_infinite());
    assert!(consts::neg_infinity().is_infinite());
    assert!(!consts::nan().is_infinite());
    assert!(!tf(7.0, 0.0).is_infinite());
}

#[test]
fn is_finite_test() {
    assert!(!consts::infinity().is_finite());
    assert!(!consts::neg_infinity().is_finite());
    assert!(!consts::nan().is_finite());
    assert!(tf(7.0, 0.0).is_finite());
}

#[test]
fn from_single_component_round_trip() {
    let d: f64 = 0.1234567890123456789;
    let v = TwoFloat::from_f64_bits(d.to_bits());
    assert_eq!(f64::from_bits(v.hi), d);
    assert_eq!(v.lo, 0);
}

#[test]
fn negate_flips_both_components() {
    let v = tf(2.0, -1e-17).negate();
    assert_eq!(v, tf(-2.0, 1e-17));
    assert_eq!(v.negate(), tf(2.0, -1e-17));
}

#[test]
fn validity_of_constant_catalog() {
    assert!(consts::e().is_valid());
    assert!(consts::frac_1_pi().is_valid());
    assert!(consts::frac_2_pi().is_valid());
    assert!(consts::frac_2_sqrt_pi().is_valid());
    assert!(consts::frac_1_sqrt_2().is_valid());
    assert!(consts::frac_pi_2().is_valid());
    assert!(consts::frac_pi_3().is_valid());
    assert!(consts::frac_pi_4().is_valid());
    assert!(consts::frac_pi_6().is_valid());
    assert!(consts::frac_pi_8().is_valid());
    assert!(consts::ln_2().is_valid());
    assert!(consts::ln_10().is_valid());
    assert!(consts::log2_e().is_valid());
    assert!(consts::log10_e().is_valid());
    assert!(consts::log10_2().is_valid());
    assert!(consts::log2_10().is_valid());
    assert!(consts::pi().is_valid());
    assert!(consts::sqrt_2().is_valid());
    assert!(consts::tau().is_valid());
    assert!(consts::zero().is_valid());
    assert!(consts::neg_zero().is_valid());
    assert!(consts::one().is_valid());
    assert!(consts::neg_one().is_valid());
    assert!(consts::max().is_valid());
    assert!(consts::min().is_valid());
    assert!(consts::min_positive().is_valid());
    assert!(consts::epsilon().is_valid());
    assert!(!consts::nan().is_valid());
    assert!(!consts::infinity().is_valid());
}

#[test]
fn constant_leading_components_match_std() {
    assert_eq!(f64::from_bits(consts::e().hi), std::f64::consts::E);
    assert_eq!(f64::from_bits(consts::pi().hi), std::f64::consts::PI);
    assert_eq!(f64::from_bits(consts::ln_2().hi), std::f64::consts::LN_2);
    assert_eq!(f64::from_bits(consts::sqrt_2().hi), std::f64::consts::SQRT_2);
    assert_eq!(f64::from_bits(consts::frac_pi_2().hi), std::f64::consts::FRAC_PI_2);
    assert_eq!(f64::from_bits(consts::log2_e().hi), std::f64::consts::LOG2_E);
}

#[test]
fn validity_detects_wide_trailing_component() {
    assert!(tf(1.0, 1e-17).is_valid());
    assert!(!tf(1.0, 1e-15).is_valid());
    assert!(!tf(0.0, 1e-300).is_valid());
    assert!(tf(0.0, -0.0).is_valid());
    // Half an ulp exactly is still valid.
    let half_ulp = f64::EPSILON / 2.0;
    assert!(tf(1.0, half_ulp).is_valid());
}

#[test]
fn repeated_test_runs() {
    twofloat::test_util::repeated_test(|| {
        assert!(consts::one().is_valid());
    });
}
