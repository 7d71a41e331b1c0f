//! Sign manipulation and classification of extended-precision values.
//!
//! The sign of a value is the sign of its leading component, and every
//! classification query reads the leading component alone. Negation flips
//! the sign bit of both components, which is exact for every encoding.

use crate::bits::{
    abs_bits, gt_pos_zero, half_ulp_threshold, is_finite_bits, is_inf_bits, is_nan_bits,
    is_normal_bits, is_subnormal_bits, is_zero_bits, neg_bits, sign_bit, valid_pair, ABS_MASK,
    EXP_MASK, FRAC_MASK, SIGN_MASK,
};
use crate::consts;
use crate::TwoFloat;
use vstd::prelude::*;

verus! {

/// The classification of a value, read from the leading component's
/// encoding.
#[derive(Clone, Copy, Debug, PartialEq, Eq, Structural)]
pub enum FpCategory {
    /// Not a number.
    Nan,
    /// Positive or negative infinity.
    Infinite,
    /// Positive or negative zero.
    Zero,
    /// Finite, nonzero, with a magnitude below the smallest normal number.
    Subnormal,
    /// Finite, nonzero and not subnormal.
    Normal,
}

/// The category that a binary64 encoding falls in.
pub open spec fn classify_bits(b: u64) -> FpCategory {
    if is_nan_bits(b) {
        FpCategory::Nan
    } else if is_inf_bits(b) {
        FpCategory::Infinite
    } else if is_zero_bits(b) {
        FpCategory::Zero
    } else if is_subnormal_bits(b) {
        FpCategory::Subnormal
    } else {
        FpCategory::Normal
    }
}

impl TwoFloat {
    /// The value with the sign bit of both components flipped.
    pub open spec fn spec_negate(self) -> TwoFloat {
        TwoFloat { hi: neg_bits(self.hi), lo: neg_bits(self.lo) }
    }

    /// The absolute value: the value itself when its leading component
    /// compares greater than zero, or is a positive zero with a
    /// positive-signed trailing component; the negation otherwise.
    pub open spec fn spec_abs(self) -> TwoFloat {
        if gt_pos_zero(self.hi) || (is_zero_bits(self.hi) && !sign_bit(self.hi) && !sign_bit(
            self.lo,
        )) {
            self
        } else {
            self.spec_negate()
        }
    }

    /// The sign of the value: one with the sign of the leading component
    /// for a valid value, NaN otherwise.
    pub open spec fn spec_signum(self) -> TwoFloat {
        if valid_pair(self.hi, self.lo) {
            if !sign_bit(self.hi) {
                TwoFloat { hi: 0x3FF0000000000000, lo: 0 }
            } else {
                TwoFloat { hi: 0xBFF0000000000000, lo: 0 }
            }
        } else {
            TwoFloat { hi: 0x7FF8000000000000, lo: 0x7FF8000000000000 }
        }
    }

    /// Returns the negation of `self`: both components with their sign bit
    /// flipped.
    pub fn negate(self) -> (r: Self)
        ensures
            r == self.spec_negate(),
    {
        TwoFloat { hi: self.hi ^ SIGN_MASK, lo: self.lo ^ SIGN_MASK }
    }

    /// Returns the absolute value of `self`.
    pub fn abs(self) -> (r: Self)
        ensures
            r == self.spec_abs(),
    {
        let hi_gt_zero = self.hi & SIGN_MASK != SIGN_MASK && self.hi & ABS_MASK != 0 && !(self.hi
            & EXP_MASK == EXP_MASK && self.hi & FRAC_MASK != 0);
        if hi_gt_zero || (self.hi & ABS_MASK == 0 && self.hi & SIGN_MASK != SIGN_MASK && self.lo
            & SIGN_MASK != SIGN_MASK) {
            self
        } else {
            self.negate()
        }
    }

    /// Returns `true` if `self` has a positive sign, including positive
    /// zero.
    pub fn is_sign_positive(&self) -> (r: bool)
        ensures
            r == !sign_bit(self.hi),
    {
        self.hi & SIGN_MASK != SIGN_MASK
    }

    /// Returns `true` if `self` has a negative sign, including negative
    /// zero.
    pub fn is_sign_negative(&self) -> (r: bool)
        ensures
            r == sign_bit(self.hi),
    {
        self.hi & SIGN_MASK == SIGN_MASK
    }

    /// Returns a value with the magnitude of `self` and the sign of `sign`:
    /// `self` when the two signs agree, the negation of `self` otherwise.
    pub fn copysign(self, sign: Self) -> (r: Self)
        ensures
            r == if sign_bit(self.hi) == sign_bit(sign.hi) {
                self
            } else {
                self.spec_negate()
            },
    {
        if self.is_sign_positive() == sign.is_sign_positive() {
            self
        } else {
            self.negate()
        }
    }

    /// Returns a value that represents the sign of `self`: one for a valid
    /// value with positive sign, negative one for a valid value with
    /// negative sign, and NaN for an invalid value.
    pub fn signum(self) -> (r: Self)
        ensures
            r == self.spec_signum(),
    {
        if self.is_valid() {
            if self.is_sign_positive() {
                consts::one()
            } else {
                consts::neg_one()
            }
        } else {
            consts::nan()
        }
    }

    /// Returns `true` if the pair satisfies the half-ulp invariant: both
    /// components finite, and the trailing magnitude no more than half an
    /// ulp of a nonzero leading component, or zero beside a zero one.
    pub fn is_valid(&self) -> (r: bool)
        ensures
            r == valid_pair(self.hi, self.lo),
    {
        let hi_finite = self.hi & EXP_MASK != EXP_MASK;
        let lo_finite = self.lo & EXP_MASK != EXP_MASK;
        if !hi_finite || !lo_finite {
            false
        } else if self.hi & ABS_MASK == 0 {
            self.lo & ABS_MASK == 0
        } else {
            self.lo & ABS_MASK <= half_ulp_threshold(self.hi)
        }
    }

    /// Returns the classification of the value, read from the leading
    /// component.
    pub fn classify(self) -> (r: FpCategory)
        ensures
            r == classify_bits(self.hi),
    {
        proof {
            crate::bits::lemma_magnitude_fields(self.hi);
        }
        if self.hi & EXP_MASK == EXP_MASK {
            if self.hi & FRAC_MASK != 0 {
                FpCategory::Nan
            } else {
                FpCategory::Infinite
            }
        } else if self.hi & ABS_MASK == 0 {
            FpCategory::Zero
        } else if self.hi & EXP_MASK == 0 {
            FpCategory::Subnormal
        } else {
            FpCategory::Normal
        }
    }

    /// Returns `true` if the value is neither zero, infinite, subnormal nor
    /// NaN.
    pub fn is_normal(self) -> (r: bool)
        ensures
            r == is_normal_bits(self.hi),
    {
        proof {
            crate::bits::lemma_magnitude_fields(self.hi);
        }
        self.classify() == FpCategory::Normal
    }

    /// Returns `true` if the value is positive or negative zero.
    pub fn is_zero(self) -> (r: bool)
        ensures
            r == is_zero_bits(self.hi),
    {
        self.hi & ABS_MASK == 0
    }

    /// Returns `true` if the leading component is subnormal: finite,
    /// nonzero, with a magnitude below the smallest normal number.
    pub fn is_subnormal(self) -> (r: bool)
        ensures
            r == is_subnormal_bits(self.hi),
    {
        proof {
            crate::bits::lemma_magnitude_fields(self.hi);
        }
        self.classify() == FpCategory::Subnormal
    }

    /// Returns `true` if the value is positive or negative infinity.
    pub fn is_infinite(self) -> (r: bool)
        ensures
            r == is_inf_bits(self.hi),
    {
        self.hi & EXP_MASK == EXP_MASK && self.hi & FRAC_MASK == 0
    }

    /// Returns `true` if the value is neither infinite nor NaN.
    pub fn is_finite(self) -> (r: bool)
        ensures
            r == is_finite_bits(self.hi),
    {
        self.hi & EXP_MASK != EXP_MASK
    }

    /// Returns `true` if the value is NaN.
    pub fn is_nan(self) -> (r: bool)
        ensures
            r == is_nan_bits(self.hi),
    {
        self.hi & EXP_MASK == EXP_MASK && self.hi & FRAC_MASK != 0
    }
}

/// Negation preserves the half-ulp invariant: the negation of a valid value
/// is valid.
pub proof fn lemma_negate_preserves_valid(a: TwoFloat)
    requires
        valid_pair(a.hi, a.lo),
    ensures
        valid_pair(a.spec_negate().hi, a.spec_negate().lo),
{
    crate::bits::lemma_neg_fields(a.hi);
    crate::bits::lemma_neg_fields(a.lo);
}

/// The absolute value preserves the half-ulp invariant: the absolute value
/// of a valid value is valid.
pub proof fn lemma_abs_preserves_valid(a: TwoFloat)
    requires
        valid_pair(a.hi, a.lo),
    ensures
        valid_pair(a.spec_abs().hi, a.spec_abs().lo),
{
    if !(gt_pos_zero(a.hi) || (is_zero_bits(a.hi) && !sign_bit(a.hi) && !sign_bit(a.lo))) {
        lemma_negate_preserves_valid(a);
    }
}

/// Copying a sign preserves the half-ulp invariant: the result of
/// `copysign` on a valid value is valid, whatever the sign operand.
pub proof fn lemma_copysign_preserves_valid(a: TwoFloat, sign: TwoFloat)
    requires
        valid_pair(a.hi, a.lo),
    ensures
        valid_pair(
            if sign_bit(a.hi) == sign_bit(sign.hi) {
                a
            } else {
                a.spec_negate()
            }.hi,
            if sign_bit(a.hi) == sign_bit(sign.hi) {
                a
            } else {
                a.spec_negate()
            }.lo,
        ),
{
    if sign_bit(a.hi) != sign_bit(sign.hi) {
        lemma_negate_preserves_valid(a);
    }
}

/// The sign of every value is a valid value: `signum` returns one, negative
/// one, or the NaN pair, and the first two satisfy the half-ulp invariant.
pub proof fn lemma_signum_valid_on_valid(a: TwoFloat)
    requires
        valid_pair(a.hi, a.lo),
    ensures
        valid_pair(a.spec_signum().hi, a.spec_signum().lo),
{
    assert(valid_pair(0x3FF0000000000000u64, 0u64) && valid_pair(0xBFF0000000000000u64, 0u64))
        by (bit_vector);
}

/// NaN absorption for negation: negating a value leaves it NaN exactly when
/// it was NaN.
pub proof fn lemma_negate_nan(a: TwoFloat)
    ensures
        is_nan_bits(a.spec_negate().hi) == is_nan_bits(a.hi),
{
    crate::bits::lemma_neg_fields(a.hi);
}

/// NaN absorption for the absolute value: the absolute value of a value is
/// NaN exactly when the value was NaN.
pub proof fn lemma_abs_nan(a: TwoFloat)
    ensures
        is_nan_bits(a.spec_abs().hi) == is_nan_bits(a.hi),
{
    crate::bits::lemma_neg_fields(a.hi);
}

/// NaN absorption for `copysign`: the result is NaN exactly when the
/// magnitude operand was NaN, whatever the sign operand.
pub proof fn lemma_copysign_nan(a: TwoFloat, sign: TwoFloat)
    ensures
        is_nan_bits(
            if sign_bit(a.hi) == sign_bit(sign.hi) {
                a
            } else {
                a.spec_negate()
            }.hi,
        ) == is_nan_bits(a.hi),
{
    crate::bits::lemma_neg_fields(a.hi);
}

/// NaN absorption for `signum`: a NaN operand yields the NaN pair, since a
/// NaN leading component breaks the invariant.
pub proof fn lemma_signum_nan(a: TwoFloat)
    requires
        is_nan_bits(a.hi),
    ensures
        a.spec_signum() == (TwoFloat { hi: 0x7FF8000000000000u64, lo: 0x7FF8000000000000u64 }),
{
    assert(!is_finite_bits(a.hi));
}

} // verus!

