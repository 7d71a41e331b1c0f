//! The catalog of named values: mathematical constants precomputed as
//! extended-precision pairs, and the special values of the representation.
//! Each component is given by its binary64 bit pattern, and each function
//! pins the exact pair it returns.

use crate::TwoFloat;
use vstd::prelude::*;

verus! {

/// Euler's number (e).
pub fn e() -> (r: TwoFloat)
    ensures
        r.hi == 0x4005BF0A8B145769u64,
        r.lo == 0x3CA4D57EE2B1013Au64,
{
    TwoFloat { hi: 0x4005BF0A8B145769, lo: 0x3CA4D57EE2B1013A }
}

/// 1/pi.
pub fn frac_1_pi() -> (r: TwoFloat)
    ensures
        r.hi == 0x3FD45F306DC9C883u64,
        r.lo == 0xBC76B01EC5417056u64,
{
    TwoFloat { hi: 0x3FD45F306DC9C883, lo: 0xBC76B01EC5417056 }
}

/// 2/pi.
pub fn frac_2_pi() -> (r: TwoFloat)
    ensures
        r.hi == 0x3FE45F306DC9C883u64,
        r.lo == 0xBC86B01EC5417056u64,
{
    TwoFloat { hi: 0x3FE45F306DC9C883, lo: 0xBC86B01EC5417056 }
}

/// 2/sqrt(pi).
pub fn frac_2_sqrt_pi() -> (r: TwoFloat)
    ensures
        r.hi == 0x3FF20DD750429B6Du64,
        r.lo == 0x3C71AE3A914FED80u64,
{
    TwoFloat { hi: 0x3FF20DD750429B6D, lo: 0x3C71AE3A914FED80 }
}

/// 1/sqrt(2).
pub fn frac_1_sqrt_2() -> (r: TwoFloat)
    ensures
        r.hi == 0x3FE6A09E667F3BCDu64,
        r.lo == 0xBC8BDD3413B26456u64,
{
    TwoFloat { hi: 0x3FE6A09E667F3BCD, lo: 0xBC8BDD3413B26456 }
}

/// pi/2.
pub fn frac_pi_2() -> (r: TwoFloat)
    ensures
        r.hi == 0x3FF921FB54442D18u64,
        r.lo == 0x3C91A62633145C07u64,
{
    TwoFloat { hi: 0x3FF921FB54442D18, lo: 0x3C91A62633145C07 }
}

/// pi/3.
pub fn frac_pi_3() -> (r: TwoFloat)
    ensures
        r.hi == 0x3FF0C152382D7366u64,
        r.lo == 0xBC9EE6913347C2A6u64,
{
    TwoFloat { hi: 0x3FF0C152382D7366, lo: 0xBC9EE6913347C2A6 }
}

/// pi/4.
pub fn frac_pi_4() -> (r: TwoFloat)
    ensures
        r.hi == 0x3FE921FB54442D18u64,
        r.lo == 0x3C81A62633145C07u64,
{
    TwoFloat { hi: 0x3FE921FB54442D18, lo: 0x3C81A62633145C07 }
}

/// pi/6.
pub fn frac_pi_6() -> (r: TwoFloat)
    ensures
        r.hi == 0x3FE0C152382D7366u64,
        r.lo == 0xBC8EE6913347C2A6u64,
{
    TwoFloat { hi: 0x3FE0C152382D7366, lo: 0xBC8EE6913347C2A6 }
}

/// pi/8.
pub fn frac_pi_8() -> (r: TwoFloat)
    ensures
        r.hi == 0x3FD921FB54442D18u64,
        r.lo == 0x3C71A62633145C07u64,
{
    TwoFloat { hi: 0x3FD921FB54442D18, lo: 0x3C71A62633145C07 }
}

/// pi/16.
pub fn frac_pi_16() -> (r: TwoFloat)
    ensures
        r.hi == 0x3FC921FB54442D18u64,
        r.lo == 0x3C61A62633145C04u64,
{
    TwoFloat { hi: 0x3FC921FB54442D18, lo: 0x3C61A62633145C04 }
}

/// 3*pi/2.
pub fn frac_3_pi_2() -> (r: TwoFloat)
    ensures
        r.hi == 0x4012D97C7F3321D2u64,
        r.lo == 0x3CAA79394C9E8A08u64,
{
    TwoFloat { hi: 0x4012D97C7F3321D2, lo: 0x3CAA79394C9E8A08 }
}

/// 3*pi/4.
pub fn frac_3_pi_4() -> (r: TwoFloat)
    ensures
        r.hi == 0x4002D97C7F3321D2u64,
        r.lo == 0x3C9A79394C9E8A08u64,
{
    TwoFloat { hi: 0x4002D97C7F3321D2, lo: 0x3C9A79394C9E8A08 }
}

/// 5*pi/4.
pub fn frac_5_pi_4() -> (r: TwoFloat)
    ensures
        r.hi == 0x400F6A7A2955385Eu64,
        r.lo == 0x3CA60FAFBFD97306u64,
{
    TwoFloat { hi: 0x400F6A7A2955385E, lo: 0x3CA60FAFBFD97306 }
}

/// 7*pi/4.
pub fn frac_7_pi_4() -> (r: TwoFloat)
    ensures
        r.hi == 0x4015FDBBE9BBA775u64,
        r.lo == 0x3CAEE2C2D963A110u64,
{
    TwoFloat { hi: 0x4015FDBBE9BBA775, lo: 0x3CAEE2C2D963A110 }
}

/// ln(2).
pub fn ln_2() -> (r: TwoFloat)
    ensures
        r.hi == 0x3FE62E42FEFA39EFu64,
        r.lo == 0x3C7ABC9E3B39803Fu64,
{
    TwoFloat { hi: 0x3FE62E42FEFA39EF, lo: 0x3C7ABC9E3B39803F }
}

/// ln(10).
pub fn ln_10() -> (r: TwoFloat)
    ensures
        r.hi == 0x40026BB1BBB55516u64,
        r.lo == 0xBCAF48AD494EA3E9u64,
{
    TwoFloat { hi: 0x40026BB1BBB55516, lo: 0xBCAF48AD494EA3E9 }
}

/// Base-2 logarithm of e.
pub fn log2_e() -> (r: TwoFloat)
    ensures
        r.hi == 0x3FF71547652B82FEu64,
        r.lo == 0x3C7777D0FFDA0D24u64,
{
    TwoFloat { hi: 0x3FF71547652B82FE, lo: 0x3C7777D0FFDA0D24 }
}

/// Base-10 logarithm of e.
pub fn log10_e() -> (r: TwoFloat)
    ensures
        r.hi == 0x3FDBCB7B1526E50Eu64,
        r.lo == 0x3C695355BAAAFAD3u64,
{
    TwoFloat { hi: 0x3FDBCB7B1526E50E, lo: 0x3C695355BAAAFAD3 }
}

/// Base-10 logarithm of 2.
pub fn log10_2() -> (r: TwoFloat)
    ensures
        r.hi == 0x3FD34413509F79FFu64,
        r.lo == 0xBC49DC1DA994FD21u64,
{
    TwoFloat { hi: 0x3FD34413509F79FF, lo: 0xBC49DC1DA994FD21 }
}

/// Base-2 logarithm of 10.
pub fn log2_10() -> (r: TwoFloat)
    ensures
        r.hi == 0x400A934F0979A371u64,
        r.lo == 0x3CA7F2495FB7FA6Du64,
{
    TwoFloat { hi: 0x400A934F0979A371, lo: 0x3CA7F2495FB7FA6D }
}

/// Archimedes' constant (pi).
pub fn pi() -> (r: TwoFloat)
    ensures
        r.hi == 0x400921FB54442D18u64,
        r.lo == 0x3CA1A62633145C07u64,
{
    TwoFloat { hi: 0x400921FB54442D18, lo: 0x3CA1A62633145C07 }
}

/// sqrt(2).
pub fn sqrt_2() -> (r: TwoFloat)
    ensures
        r.hi == 0x3FF6A09E667F3BCDu64,
        r.lo == 0xBC9BDD3413B26456u64,
{
    TwoFloat { hi: 0x3FF6A09E667F3BCD, lo: 0xBC9BDD3413B26456 }
}

/// The full circle constant (tau).
pub fn tau() -> (r: TwoFloat)
    ensures
        r.hi == 0x401921FB54442D18u64,
        r.lo == 0x3CB1A62633145C07u64,
{
    TwoFloat { hi: 0x401921FB54442D18, lo: 0x3CB1A62633145C07 }
}

/// The difference between 1 and the next larger representable
/// extended-precision value, about 2 to the power -104.
pub fn epsilon() -> (r: TwoFloat)
    ensures
        r.hi == 0x396FFFFFFFFFFFF9u64,
        r.lo == 0u64,
{
    TwoFloat { hi: 0x396FFFFFFFFFFFF9, lo: 0 }
}

/// Smallest finite extended-precision value.
pub fn min() -> (r: TwoFloat)
    ensures
        r.hi == 0xFFEFFFFFFFFFFFFFu64,
        r.lo == 0xFC8FFFFFFFFFFFFFu64,
{
    TwoFloat { hi: 0xFFEFFFFFFFFFFFFF, lo: 0xFC8FFFFFFFFFFFFF }
}

/// Smallest positive normal extended-precision value.
pub fn min_positive() -> (r: TwoFloat)
    ensures
        r.hi == 0x0010000000000000u64,
        r.lo == 0u64,
{
    TwoFloat { hi: 0x0010000000000000, lo: 0 }
}

/// Largest finite extended-precision value.
pub fn max() -> (r: TwoFloat)
    ensures
        r.hi == 0x7FEFFFFFFFFFFFFFu64,
        r.lo == 0x7C8FFFFFFFFFFFFFu64,
{
    TwoFloat { hi: 0x7FEFFFFFFFFFFFFF, lo: 0x7C8FFFFFFFFFFFFF }
}

/// Not a Number: both components hold the quiet NaN encoding.
pub fn nan() -> (r: TwoFloat)
    ensures
        r.hi == 0x7FF8000000000000u64,
        r.lo == 0x7FF8000000000000u64,
{
    TwoFloat { hi: 0x7FF8000000000000, lo: 0x7FF8000000000000 }
}

/// Positive infinity.
pub fn infinity() -> (r: TwoFloat)
    ensures
        r.hi == 0x7FF0000000000000u64,
        r.lo == 0u64,
{
    TwoFloat { hi: 0x7FF0000000000000, lo: 0 }
}

/// Negative infinity.
pub fn neg_infinity() -> (r: TwoFloat)
    ensures
        r.hi == 0xFFF0000000000000u64,
        r.lo == 0u64,
{
    TwoFloat { hi: 0xFFF0000000000000, lo: 0 }
}

/// Positive zero.
pub fn zero() -> (r: TwoFloat)
    ensures
        r.hi == 0u64,
        r.lo == 0u64,
{
    TwoFloat { hi: 0, lo: 0 }
}

/// Negative zero.
pub fn neg_zero() -> (r: TwoFloat)
    ensures
        r.hi == 0x8000000000000000u64,
        r.lo == 0u64,
{
    TwoFloat { hi: 0x8000000000000000, lo: 0 }
}

/// One.
pub fn one() -> (r: TwoFloat)
    ensures
        r.hi == 0x3FF0000000000000u64,
        r.lo == 0u64,
{
    TwoFloat { hi: 0x3FF0000000000000, lo: 0 }
}

/// Negative one.
pub fn neg_one() -> (r: TwoFloat)
    ensures
        r.hi == 0xBFF0000000000000u64,
        r.lo == 0u64,
{
    TwoFloat { hi: 0xBFF0000000000000, lo: 0 }
}

/// The radix of the underlying representation.
pub const RADIX: u32 = 2;

/// Number of significant digits in base 2 across both components.
pub const MANTISSA_DIGITS: u32 = 106;

/// Approximate number of significant digits in base 10.
pub const DIGITS: u32 = 31;

/// One greater than the minimum possible normal power-of-2 exponent.
pub const MIN_EXP: i32 = -1021;

/// Maximum possible power-of-2 exponent.
pub const MAX_EXP: i32 = 1024;

/// Minimum possible normal power-of-10 exponent.
pub const MIN_10_EXP: i32 = -307;

/// Maximum possible power-of-10 exponent.
pub const MAX_10_EXP: i32 = 308;

} // verus!
