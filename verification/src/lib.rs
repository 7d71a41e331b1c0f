//! Extended-precision arithmetic values represented as an unevaluated pair of
//! IEEE-754 binary64 components, each held as its 64-bit encoding.
//!
//! The `hi` component carries the leading approximation of the represented
//! number and the `lo` component carries the rounding error that `hi` cannot
//! absorb. All classification, sign manipulation, rendering and parsing logic
//! in this crate works directly on the 64-bit encodings, so every branch is
//! stated and proved at the bit level.

use vstd::prelude::*;

pub mod bits;
pub mod consts;
pub mod display;
pub mod from_str;
pub mod sign;
pub mod test_util;

verus! {

/// An extended-precision value: the sum of two binary64 numbers, each stored
/// as its IEEE-754 bit pattern. `hi` holds the leading component and `lo` the
/// trailing rounding-error component.
#[derive(Clone, Copy, Debug, PartialEq, Eq, Structural)]
pub struct TwoFloat {
    pub hi: u64,
    pub lo: u64,
}

impl TwoFloat {
    /// Builds the value equal to a single binary64 number, given its bit
    /// pattern: the trailing component is positive zero.
    pub fn from_f64_bits(b: u64) -> (r: TwoFloat)
        ensures
            r.hi == b,
            r.lo == 0u64,
    {
        TwoFloat { hi: b, lo: 0 }
    }
}

} // verus!
