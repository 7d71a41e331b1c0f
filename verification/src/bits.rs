//! Bit-level model of IEEE-754 binary64 encodings.
//!
//! A binary64 number is held as its 64-bit encoding: one sign bit, an
//! 11-bit biased exponent and a 52-bit fraction. The spec functions here
//! define the classification of an encoding and the executable functions
//! mirror them exactly.

use vstd::prelude::*;

verus! {

/// Mask of the sign bit.
pub const SIGN_MASK: u64 = 0x8000_0000_0000_0000;
/// Mask of everything but the sign bit: the magnitude bits.
pub const ABS_MASK: u64 = 0x7FFF_FFFF_FFFF_FFFF;
/// Mask of the biased exponent field.
pub const EXP_MASK: u64 = 0x7FF0_0000_0000_0000;
/// Mask of the fraction field.
pub const FRAC_MASK: u64 = 0x000F_FFFF_FFFF_FFFF;

/// The sign bit of an encoding; `true` for a negative sign.
pub open spec fn sign_bit(b: u64) -> bool {
    b & SIGN_MASK == SIGN_MASK
}

/// The magnitude bits of an encoding: the encoding of its absolute value.
pub open spec fn abs_bits(b: u64) -> u64 {
    b & ABS_MASK
}

/// The biased exponent field, shifted down to an integer in `0 ..= 0x7FF`.
pub open spec fn biased_exp(b: u64) -> u64 {
    (b >> 52) & 0x7FF
}

/// The fraction field of an encoding.
pub open spec fn frac_bits(b: u64) -> u64 {
    b & FRAC_MASK
}

/// The encoding denotes NaN: exponent field all ones, nonzero fraction.
pub open spec fn is_nan_bits(b: u64) -> bool {
    b & EXP_MASK == EXP_MASK && b & FRAC_MASK != 0
}

/// The encoding denotes an infinity: exponent field all ones, zero fraction.
pub open spec fn is_inf_bits(b: u64) -> bool {
    b & EXP_MASK == EXP_MASK && b & FRAC_MASK == 0
}

/// The encoding denotes a finite number: exponent field not all ones.
pub open spec fn is_finite_bits(b: u64) -> bool {
    b & EXP_MASK != EXP_MASK
}

/// The encoding denotes a zero of either sign.
pub open spec fn is_zero_bits(b: u64) -> bool {
    b & ABS_MASK == 0
}

/// The encoding denotes a subnormal number: zero exponent field, nonzero
/// fraction.
pub open spec fn is_subnormal_bits(b: u64) -> bool {
    b & EXP_MASK == 0 && b & FRAC_MASK != 0
}

/// The encoding denotes a normal number: exponent field neither zero nor all
/// ones.
pub open spec fn is_normal_bits(b: u64) -> bool {
    b & EXP_MASK != 0 && b & EXP_MASK != EXP_MASK
}

/// The encoding of the negation of a number: the sign bit flipped. Negation
/// of a binary64 value flips the sign bit and nothing else, for every
/// encoding including NaN, infinities and zeros.
pub open spec fn neg_bits(b: u64) -> u64 {
    b ^ SIGN_MASK
}

/// The binary64 comparison `b > +0.0`: a positive sign, a nonzero magnitude
/// and not NaN. Every comparison against NaN is false.
pub open spec fn gt_pos_zero(b: u64) -> bool {
    !sign_bit(b) && abs_bits(b) != 0 && !is_nan_bits(b)
}

/// The encoding of half an ulp of `b`: the largest magnitude that the
/// trailing component of a valid pair with leading component `b` may have.
///
/// For a biased exponent `e`, an ulp of `b` is 2 to the power `e - 1075`, so
/// half an ulp is 2 to the power `e - 1076`: a normal encoding when
/// `e >= 54`, a subnormal encoding when `2 <= e <= 53`, and below the
/// smallest subnormal (so only zero fits under it) when `e <= 1`.
pub open spec fn half_ulp_bits(b: u64) -> u64 {
    let e = biased_exp(b);
    if e >= 54 {
        ((e - 53) as u64) << 52u64
    } else if e >= 2 {
        1u64 << ((e - 2) as u64)
    } else {
        0
    }
}

/// The half-ulp invariant on a pair of encodings: both components finite,
/// a zero leading component carries a zero trailing component, and a nonzero
/// leading component bounds the trailing magnitude by half an ulp. For
/// non-negative finite encodings the unsigned order of the bit patterns is
/// the numeric order, so the bound is a plain comparison of magnitude bits.
pub open spec fn valid_pair(hi: u64, lo: u64) -> bool {
    &&& is_finite_bits(hi)
    &&& is_finite_bits(lo)
    &&& if abs_bits(hi) == 0 {
        abs_bits(lo) == 0
    } else {
        abs_bits(lo) <= half_ulp_bits(hi)
    }
}

/// The magnitude bits of an encoding are exactly its exponent and fraction
/// fields together: the magnitude is zero precisely when both fields are
/// zero.
pub proof fn lemma_magnitude_fields(b: u64)
    by (bit_vector)
    ensures
        (b & ABS_MASK == 0) <==> (b & EXP_MASK == 0 && b & FRAC_MASK == 0),
{
}

/// Flipping the sign bit of an encoding leaves its magnitude, exponent and
/// fraction fields unchanged, and flips exactly the sign.
pub proof fn lemma_neg_fields(b: u64)
    by (bit_vector)
    ensures
        (b ^ SIGN_MASK) & ABS_MASK == b & ABS_MASK,
        (b ^ SIGN_MASK) & EXP_MASK == b & EXP_MASK,
        (b ^ SIGN_MASK) & FRAC_MASK == b & FRAC_MASK,
        ((b ^ SIGN_MASK) >> 52) & 0x7FF == (b >> 52) & 0x7FF,
        ((b ^ SIGN_MASK) & SIGN_MASK == SIGN_MASK) <==> (b & SIGN_MASK != SIGN_MASK),
{
}

/// Computes the half-ulp magnitude bound of an encoding.
pub fn half_ulp_threshold(b: u64) -> (r: u64)
    ensures
        r == half_ulp_bits(b),
{
    let e: u64 = (b >> 52) & 0x7FF;
    if e >= 54 {
        (e - 53) << 52u64
    } else if e >= 2 {
        1u64 << (e - 2)
    } else {
        0
    }
}

} // verus!
