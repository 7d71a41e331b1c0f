//! Rendering of extended-precision values as character sequences.
//!
//! The functions here build the text of a value from plain data: the sign
//! and classification read from the components, and for finite nonzero
//! values a list of decimal digit values together with the decimal exponent
//! of the leading digit. Extracting those digits from a value is arithmetic
//! on the represented numbers and happens outside; everything from digits
//! to finished, padded text is stated and proved here.

use crate::bits::{is_inf_bits, is_nan_bits, is_zero_bits, sign_bit};
use crate::TwoFloat;
use vstd::prelude::*;
use vstd::pervasive::VecAdditionalExecFns;

verus! {

/// Where the text is placed inside a padded field.
#[derive(Clone, Copy, Debug, PartialEq, Eq, Structural)]
pub enum Align {
    /// Text first, padding after.
    Left,
    /// Padding first, text after.
    Right,
    /// Padding split evenly, any odd column going to the right side.
    Center,
}

/// The character `c` repeated `n` times.
pub open spec fn char_repeat(c: char, n: int) -> Seq<char> {
    Seq::new(n as nat, |i: int| c)
}

/// The character of a single decimal digit value.
pub open spec fn digit_char(d: u8) -> char {
    ((48 + (d % 10)) as u8) as char
}

/// The characters of a digit-value string.
pub open spec fn digit_chars(s: Seq<u8>) -> Seq<char> {
    s.map_values(|d: u8| digit_char(d))
}

/// The decimal spelling of a non-negative number.
pub open spec fn dec_chars(n: int) -> Seq<char>
    decreases n,
{
    if n < 10 {
        seq![digit_char((if 0 <= n { n % 10 } else { 0 }) as u8)]
    } else {
        dec_chars(n / 10).push(digit_char((n % 10) as u8))
    }
}

/// The decimal spelling of an integer, with a leading minus when negative.
pub open spec fn int_chars(n: int) -> Seq<char> {
    if n < 0 {
        seq!['-'] + dec_chars(-n)
    } else {
        dec_chars(n)
    }
}

/// Appends the decimal spelling of a non-negative number.
fn push_udec(chars: &mut Vec<char>, n: u32)
    ensures
        final (chars)@ == old(chars)@ + dec_chars(n as int),
    decreases n,
{
    if n < 10 {
        chars.push((48 + (n % 10) as u8) as char);
        proof {
            assert(final (chars)@ =~= old(chars)@ + dec_chars(n as int));
        }
    } else {
        push_udec(chars, n / 10);
        chars.push((48 + (n % 10) as u8) as char);
        proof {
            assert(final (chars)@ =~= old(chars)@ + dec_chars(n as int));
        }
    }
}

/// Appends the exponent marker and the decimal spelling of the exponent.
pub fn push_exp(chars: &mut Vec<char>, marker: char, exp: i32)
    ensures
        final (chars)@ == old(chars)@ + seq![marker] + int_chars(exp as int),
{
    chars.push(marker);
    if exp < 0 {
        chars.push('-');
        let mag: u32 = (-(exp as i64)) as u32;
        push_udec(chars, mag);
        proof {
            assert(final (chars)@ =~= old(chars)@ + seq![marker] + int_chars(exp as int));
        }
    } else {
        push_udec(chars, exp as u32);
        proof {
            assert(final (chars)@ =~= old(chars)@ + seq![marker] + int_chars(exp as int));
        }
    }
}

/// Appends the sign character: a minus for a negative-signed value, a plus
/// for a positive-signed value when a plus was asked for, nothing
/// otherwise. Reports whether a sign character was written.
pub fn push_sign(chars: &mut Vec<char>, value: &TwoFloat, sign_plus: bool) -> (signed: bool)
    ensures
        sign_bit(value.hi) ==> final (chars)@ == old(chars)@.push('-'),
        !sign_bit(value.hi) && sign_plus ==> final (chars)@ == old(chars)@.push('+'),
        !sign_bit(value.hi) && !sign_plus ==> final (chars)@ == old(chars)@,
        signed == (sign_bit(value.hi) || sign_plus),
{
    if value.is_sign_negative() {
        chars.push('-');
        true
    } else if sign_plus {
        chars.push('+');
        true
    } else {
        false
    }
}

/// The spelling of NaN.
pub open spec fn nan_chars() -> Seq<char> {
    seq!['N', 'a', 'N']
}

/// The spelling of an infinity's magnitude.
pub open spec fn inf_chars() -> Seq<char> {
    seq!['i', 'n', 'f']
}

/// Appends the spelling of NaN.
pub fn push_nan(chars: &mut Vec<char>)
    ensures
        final (chars)@ == old(chars)@ + nan_chars(),
{
    chars.push('N');
    chars.push('a');
    chars.push('N');
    proof {
        assert(final (chars)@ =~= old(chars)@ + nan_chars());
    }
}

/// Appends the spelling of an infinity's magnitude.
pub fn push_inf(chars: &mut Vec<char>)
    ensures
        final (chars)@ == old(chars)@ + inf_chars(),
{
    chars.push('i');
    chars.push('n');
    chars.push('f');
    proof {
        assert(final (chars)@ =~= old(chars)@ + inf_chars());
    }
}

/// The spelling of a zero at a given precision: a bare zero, or a zero, a
/// point and as many fraction zeros as the precision asks for.
pub open spec fn zero_chars(precision: Option<usize>) -> Seq<char> {
    match precision {
        Some(p) => if p > 0 {
            seq!['0', '.'] + char_repeat('0', p as int)
        } else {
            seq!['0']
        },
        None => seq!['0'],
    }
}

/// Appends `n` copies of a character.
fn push_repeat(chars: &mut Vec<char>, c: char, n: usize)
    ensures
        final (chars)@ == old(chars)@ + char_repeat(c, n as int),
{
    let mut i: usize = 0;
    while i < n
        invariant
            0 <= i <= n,
            chars@ == old(chars)@ + char_repeat(c, i as int),
        decreases n - i,
    {
        chars.push(c);
        proof {
            assert(chars@ =~= old(chars)@ + char_repeat(c, i + 1));
        }
        i = i + 1;
    }
    proof {
        assert(chars@ =~= old(chars)@ + char_repeat(c, n as int));
    }
}

/// Appends the spelling of a zero at a given precision.
pub fn push_zero(chars: &mut Vec<char>, precision: Option<usize>)
    ensures
        final (chars)@ == old(chars)@ + zero_chars(precision),
{
    chars.push('0');
    match precision {
        Some(p) => {
            if p > 0 {
                chars.push('.');
                push_repeat(chars, '0', p);
                proof {
                    assert(final (chars)@ =~= old(chars)@ + zero_chars(precision));
                }
            }
        },
        None => {},
    }
}

/// The text placed inside its field: unchanged when no width is given or
/// the text already fills it; otherwise padded with zeros directly after
/// any sign character when sign-aware zero padding is on, and with the
/// fill character on the side or sides the alignment names otherwise.
pub open spec fn align_spec(
    s: Seq<char>,
    signed: bool,
    width: Option<usize>,
    fill: char,
    align: Align,
    zero_pad: bool,
) -> Seq<char> {
    match width {
        None => s,
        Some(w) => {
            if s.len() >= w {
                s
            } else {
                let pad = w - s.len();
                if zero_pad {
                    if signed {
                        s.subrange(0, 1) + char_repeat('0', pad) + s.subrange(1, s.len() as int)
                    } else {
                        char_repeat('0', pad) + s
                    }
                } else {
                    match align {
                        Align::Left => s + char_repeat(fill, pad),
                        Align::Right => char_repeat(fill, pad) + s,
                        Align::Center => char_repeat(fill, pad / 2) + s + char_repeat(
                            fill,
                            pad - pad / 2,
                        ),
                    }
                }
            }
        },
    }
}

/// Appends a copy of the characters of `src` from position `from` on.
fn push_tail(chars: &mut Vec<char>, src: &Vec<char>, from: usize)
    requires
        from <= src@.len(),
    ensures
        final (chars)@ == old(chars)@ + src@.subrange(from as int, src@.len() as int),
{
    let mut i: usize = from;
    while i < src.len()
        invariant
            from <= i <= src@.len(),
            chars@ == old(chars)@ + src@.subrange(from as int, i as int),
        decreases src@.len() - i,
    {
        chars.push(src[i]);
        proof {
            assert(chars@ =~= old(chars)@ + src@.subrange(from as int, i + 1));
        }
        i = i + 1;
    }
}

/// Pads the text to its field width: zeros directly after any sign
/// character when sign-aware zero padding is on, the fill character on the
/// side or sides the alignment names otherwise.
pub fn align_and_fill(
    chars: &mut Vec<char>,
    signed: bool,
    width: Option<usize>,
    fill: char,
    align: Align,
    zero_pad: bool,
)
    requires
        signed ==> old(chars)@.len() >= 1,
    ensures
        final (chars)@ == align_spec(old(chars)@, signed, width, fill, align, zero_pad),
{
    let w = match width {
        Some(w) => w,
        None => {
            return ;
        },
    };
    if chars.len() >= w {
        return ;
    }
    let pad = w - chars.len();
    let mut out: Vec<char> = Vec::new();
    if zero_pad {
        if signed {
            out.push(chars[0]);
            proof {
                assert(out@ =~= chars@.subrange(0, 1));
            }
            push_repeat(&mut out, '0', pad);
            push_tail(&mut out, chars, 1);
        } else {
            push_repeat(&mut out, '0', pad);
            push_tail(&mut out, chars, 0);
            proof {
                assert(chars@.subrange(0, chars@.len() as int) =~= chars@);
            }
        }
    } else {
        match align {
            Align::Left => {
                push_tail(&mut out, chars, 0);
                push_repeat(&mut out, fill, pad);
                proof {
                    assert(chars@.subrange(0, chars@.len() as int) =~= chars@);
                }
            },
            Align::Right => {
                push_repeat(&mut out, fill, pad);
                push_tail(&mut out, chars, 0);
                proof {
                    assert(chars@.subrange(0, chars@.len() as int) =~= chars@);
                }
            },
            Align::Center => {
                push_repeat(&mut out, fill, pad / 2);
                push_tail(&mut out, chars, 0);
                push_repeat(&mut out, fill, pad - pad / 2);
                proof {
                    assert(chars@.subrange(0, chars@.len() as int) =~= chars@);
                }
            },
        }
    }
    *chars = out;
}

/// `n` zero digit values.
pub open spec fn zeros_u8(n: int) -> Seq<u8> {
    Seq::new(n as nat, |i: int| 0u8)
}

/// A digit string with its longest all-zero tail removed, but never
/// shortened below `min` digits.
pub open spec fn trim_zeros(s: Seq<u8>, min: int) -> Seq<u8>
    decreases s.len(),
{
    if s.len() == 0 || s.len() <= min {
        s
    } else if s.last() != 0 {
        s
    } else {
        trim_zeros(s.drop_last(), min)
    }
}

/// The least count of digits that fixed-point rendering keeps: every digit
/// of the integer part, and at least one digit.
pub open spec fn zeros_min(exp: int) -> int {
    if exp >= 0 {
        exp + 1
    } else {
        1
    }
}

/// Drops trailing zero digits, keeping every digit of the integer part and
/// at least one digit.
pub fn adjust_zeros(digits: &mut Vec<u8>, exp: i32)
    ensures
        final (digits)@ == trim_zeros(old(digits)@, zeros_min(exp as int)),
{
    let min: usize = if exp >= 0 {
        (exp as usize) + 1
    } else {
        1
    };
    while digits.len() > min && digits[digits.len() - 1] == 0
        invariant
            trim_zeros(old(digits)@, zeros_min(exp as int)) == trim_zeros(
                digits@,
                zeros_min(exp as int),
            ),
            min == zeros_min(exp as int),
        decreases digits@.len(),
    {
        digits.pop();
    }
}

/// A digit string with one added to its last digit, together with the
/// carry: each trailing nine becomes a zero, the first digit below nine
/// from the back goes up by one, and the carry is reported when every
/// digit was a nine.
pub open spec fn inc_digits(s: Seq<u8>) -> (Seq<u8>, bool)
    decreases s.len(),
{
    if s.len() == 0 {
        (s, true)
    } else if s.last() == 9 {
        (inc_digits(s.drop_last()).0.push(0), inc_digits(s.drop_last()).1)
    } else {
        (s.drop_last().push((s.last() + 1) as u8), false)
    }
}

/// Every entry of the string is a digit value, below ten.
pub open spec fn digit_values_only(s: Seq<u8>) -> bool {
    forall|i: int| 0 <= i < s.len() ==> #[trigger] s[i] < 10
}

/// An increment that carries out of the front leaves only zero digits.
proof fn lemma_inc_carry(s: Seq<u8>)
    requires
        inc_digits(s).1,
    ensures
        inc_digits(s).0 == zeros_u8(s.len() as int),
    decreases s.len(),
{
    if s.len() > 0 {
        lemma_inc_carry(s.drop_last());
        assert(inc_digits(s).0 =~= zeros_u8(s.len() as int));
    } else {
        assert(inc_digits(s).0 =~= zeros_u8(0));
    }
}

/// Cuts a digit string to `len` digits and rounds: when the first dropped
/// digit is five or more, one is added to the kept digits, and the carry
/// out of an all-nines string is reported.
pub fn round_and_trunc(digits: &mut Vec<u8>, len: usize) -> (carry: bool)
    requires
        len < old(digits)@.len(),
        digit_values_only(old(digits)@),
    ensures
        old(digits)@[len as int] >= 5 ==> (final (digits)@, carry) == inc_digits(
            old(digits)@.subrange(0, len as int),
        ),
        old(digits)@[len as int] < 5 ==> final (digits)@ == old(digits)@.subrange(0, len as int)
            && !carry,
{
    let ghost t = old(digits)@.subrange(0, len as int);
    let round = digits[len] >= 5;
    digits.truncate(len);
    if !round {
        return false;
    }
    proof {
        assert(t.subrange(0, len as int) =~= t);
        assert(digits@ =~= t.subrange(0, len as int) + zeros_u8(0));
        assert(inc_digits(t).0 =~= inc_digits(t).0 + zeros_u8(0));
    }
    let mut j: usize = len;
    while j > 0
        invariant
            0 <= j <= len,
            len < old(digits)@.len(),
            old(digits)@[len as int] >= 5,
            t == old(digits)@.subrange(0, len as int),
            t.len() == len,
            digit_values_only(t),
            digits@.len() == len,
            digits@ == t.subrange(0, j as int) + zeros_u8(len - j),
            forall|k: int| j <= k < len ==> t[k] == 9,
            inc_digits(t) == (
                inc_digits(t.subrange(0, j as int)).0 + zeros_u8(len - j),
                inc_digits(t.subrange(0, j as int)).1,
            ),
        decreases j,
    {
        let d = digits[j - 1];
        if d == 9 {
            digits.set(j - 1, 0);
            proof {
                assert(t.subrange(0, j as int).drop_last() =~= t.subrange(0, j as int - 1));
                assert(digits@ =~= t.subrange(0, j as int - 1) + zeros_u8(len - j + 1));
                assert(inc_digits(t.subrange(0, j as int)).0 + zeros_u8(len - j) =~= inc_digits(
                    t.subrange(0, j as int - 1),
                ).0 + zeros_u8(len - j + 1));
            }
            j = j - 1;
        } else {
            digits.set(j - 1, d + 1);
            proof {
                assert(t.subrange(0, j as int).drop_last() =~= t.subrange(0, j as int - 1));
                assert(digits@ =~= t.subrange(0, j as int - 1).push((d + 1) as u8) + zeros_u8(
                    len - j,
                ));
                assert(inc_digits(t) == (final (digits)@, false));
            }
            return false;
        }
    }
    proof {
        assert(t.subrange(0, 0) =~= Seq::<u8>::empty());
        assert(digits@ =~= zeros_u8(len as int));
        assert(inc_digits(t) == (final (digits)@, true));
    }
    true
}

/// A digit string brought to a requested precision. The target count is
/// one digit for each place down to the requested one; a short string is
/// padded with zeros, a long one is cut and rounded, and rounding that
/// carries out of the front turns the string into a leading one and moves
/// the exponent up by one. A target at or below zero keeps no digit at
/// all, except that a target of exactly zero still rounds the first digit
/// up into a new leading one.
pub open spec fn adjust_prec_spec(s: Seq<u8>, exp: int, precision: Option<usize>) -> (Seq<u8>, int) {
    match precision {
        None => (s, exp),
        Some(p) => {
            let target = exp + 1 + p;
            if target < 0 {
                (Seq::empty(), exp)
            } else if target == 0 {
                if s.len() > 0 && s[0] >= 5 {
                    (seq![1u8], exp + 1)
                } else {
                    (Seq::empty(), exp)
                }
            } else if target < s.len() {
                if s[target] >= 5 {
                    if inc_digits(s.subrange(0, target)).1 {
                        (seq![1u8] + zeros_u8(target), exp + 1)
                    } else {
                        (inc_digits(s.subrange(0, target)).0, exp)
                    }
                } else {
                    (s.subrange(0, target), exp)
                }
            } else {
                (s + zeros_u8(target - s.len()), exp)
            }
        },
    }
}

/// Brings a digit string to a requested precision, rounding or padding,
/// and moves the exponent up by one when rounding carries out of the
/// front.
pub fn adjust_prec(digits: &mut Vec<u8>, exp: &mut i32, precision: Option<usize>)
    requires
        -0x8000 <= *old(exp) <= 0x8000,
        old(digits)@.len() <= 0x8000_0000,
        digit_values_only(old(digits)@),
        precision matches Some(p) ==> p <= 0x4000_0000,
    ensures
        final (digits)@ == adjust_prec_spec(old(digits)@, *old(exp) as int, precision).0,
        *final (exp) as int == adjust_prec_spec(old(digits)@, *old(exp) as int, precision).1,
{
    let p: usize = match precision {
        Some(p) => p,
        None => {
            return ;
        },
    };
    let target: i64 = (*exp as i64) + 1 + (p as i64);
    if target < 0 {
        digits.clear();
        return ;
    }
    if target == 0 {
        let round_up = digits.len() > 0 && digits[0] >= 5;
        digits.clear();
        if round_up {
            digits.push(1);
            *exp = *exp + 1;
            proof {
                assert(final (digits)@ =~= seq![1u8]);
            }
        }
        return ;
    }
    if target < digits.len() as i64 {
        let t = target as usize;
        let carry = round_and_trunc(digits, t);
        if carry {
            digits.insert(0, 1);
            *exp = *exp + 1;
            proof {
                lemma_inc_carry(old(digits)@.subrange(0, target as int));
                assert(final (digits)@ =~= seq![1u8] + zeros_u8(target as int));
            }
        }
    } else {
        let ghost start = digits@;
        while (digits.len() as i64) < target
            invariant
                target <= 0x4000_8001,
                start.len() <= digits@.len() <= target,
                digits@ == start + zeros_u8(digits@.len() - start.len()),
            decreases target - digits@.len(),
        {
            digits.push(0);
            proof {
                assert(digits@ =~= start + zeros_u8(digits@.len() - start.len()));
            }
        }
        proof {
            assert(digits@ =~= start + zeros_u8(target - start.len()));
        }
    }
}

/// The text of a digit string whose leading digit sits at the given
/// decimal place: the digits with the decimal point placed after the
/// integer part, padded with zeros on whichever side needs them, and a
/// bare zero for an empty string.
pub open spec fn place_decimal_spec(s: Seq<u8>, exp: int) -> Seq<char> {
    if s.len() == 0 {
        seq!['0']
    } else if exp >= 0 {
        if s.len() <= exp + 1 {
            digit_chars(s) + char_repeat('0', exp + 1 - s.len())
        } else {
            digit_chars(s.subrange(0, exp + 1)) + seq!['.'] + digit_chars(
                s.subrange(exp + 1, s.len() as int),
            )
        }
    } else {
        seq!['0', '.'] + char_repeat('0', -exp - 1) + digit_chars(s)
    }
}

/// Appends the characters of the digit values of `digits` from `from` to
/// `to`.
fn push_digit_chars(chars: &mut Vec<char>, digits: &Vec<u8>, from: usize, to: usize)
    requires
        from <= to <= digits@.len(),
    ensures
        final (chars)@ == old(chars)@ + digit_chars(digits@.subrange(from as int, to as int)),
{
    let mut i: usize = from;
    proof {
        assert(chars@ =~= old(chars)@ + digit_chars(digits@.subrange(from as int, from as int)));
    }
    while i < to
        invariant
            from <= i <= to <= digits@.len(),
            chars@ == old(chars)@ + digit_chars(digits@.subrange(from as int, i as int)),
        decreases to - i,
    {
        chars.push((48 + digits[i] % 10) as char);
        proof {
            assert(digit_chars(digits@.subrange(from as int, i + 1)) =~= digit_chars(
                digits@.subrange(from as int, i as int),
            ).push(digit_char(digits@[i as int])));
            assert(chars@ =~= old(chars)@ + digit_chars(digits@.subrange(from as int, i + 1)));
        }
        i = i + 1;
    }
}

/// A trimmed digit string is a prefix of its input: it is no longer, and
/// it keeps only digit values if the input held only digit values.
proof fn lemma_trim_zeros_prefix(s: Seq<u8>, min: int)
    ensures
        trim_zeros(s, min).len() <= s.len(),
        trim_zeros(s, min) == s.subrange(0, trim_zeros(s, min).len() as int),
        digit_values_only(s) ==> digit_values_only(trim_zeros(s, min)),
    decreases s.len(),
{
    if s.len() == 0 || s.len() <= min || s.last() != 0 {
        assert(trim_zeros(s, min) =~= s.subrange(0, trim_zeros(s, min).len() as int));
    } else {
        lemma_trim_zeros_prefix(s.drop_last(), min);
        assert(s.drop_last() =~= s.subrange(0, s.len() - 1));
        assert(trim_zeros(s, min) =~= s.subrange(0, trim_zeros(s, min).len() as int));
        if digit_values_only(s) {
            assert forall|i: int| 0 <= i < trim_zeros(s, min).len() implies #[trigger] trim_zeros(
                s,
                min,
            )[i] < 10 by {
                assert(trim_zeros(s, min)[i] == s[i]);
            }
        }
    }
}

/// Renders a digit string with its decimal point placed after the integer
/// part.
pub fn place_decimal(digits: &Vec<u8>, exp: i32) -> (r: Vec<char>)
    requires
        -0x10000 <= exp <= 0x10000,
    ensures
        r@ == place_decimal_spec(digits@, exp as int),
{
    let mut out: Vec<char> = Vec::new();
    if digits.len() == 0 {
        out.push('0');
        proof {
            assert(out@ =~= place_decimal_spec(digits@, exp as int));
        }
        return out;
    }
    proof {
        assert(digits@.subrange(0, digits@.len() as int) =~= digits@);
    }
    if exp >= 0 {
        let ip: usize = (exp as usize) + 1;
        if digits.len() <= ip {
            push_digit_chars(&mut out, digits, 0, digits.len());
            push_repeat(&mut out, '0', ip - digits.len());
        } else {
            push_digit_chars(&mut out, digits, 0, ip);
            out.push('.');
            push_digit_chars(&mut out, digits, ip, digits.len());
            proof {
                assert(out@ =~= place_decimal_spec(digits@, exp as int));
            }
        }
    } else {
        out.push('0');
        out.push('.');
        let z: usize = ((-(exp as i64)) - 1) as usize;
        push_repeat(&mut out, '0', z);
        push_digit_chars(&mut out, digits, 0, digits.len());
        proof {
            assert(out@ =~= place_decimal_spec(digits@, exp as int));
        }
    }
    out
}

/// The rendering controls of a format request: everything the text of a
/// value depends on besides the value and its digits.
#[derive(Clone, Copy, Debug)]
pub struct FormatSpec {
    /// Whether a positive value gets an explicit plus sign.
    pub sign_plus: bool,
    /// The requested count of fraction digits, when one was given.
    pub precision: Option<usize>,
    /// The least width of the finished field, when one was given.
    pub width: Option<usize>,
    /// The character that pads a field.
    pub fill: char,
    /// Where the text stands inside a padded field.
    pub align: Align,
    /// Whether padding is sign-aware zeros directly after the sign.
    pub zero_pad: bool,
}

/// The fixed-point text of a digit string: trailing zeros dropped down to
/// the integer part, the digits brought to the requested precision, and
/// the decimal point placed after the integer part.
pub open spec fn fixed_chars(s: Seq<u8>, exp: int, precision: Option<usize>) -> Seq<char> {
    let t = trim_zeros(s, zeros_min(exp));
    place_decimal_spec(
        adjust_prec_spec(t, exp, precision).0,
        adjust_prec_spec(t, exp, precision).1,
    )
}

/// The sign characters of a rendering: a minus for a negative sign, a plus
/// for a positive one when asked for, nothing otherwise.
pub open spec fn sign_chars(negative: bool, sign_plus: bool) -> Seq<char> {
    if negative {
        seq!['-']
    } else if sign_plus {
        seq!['+']
    } else {
        Seq::empty()
    }
}

/// Appends the fixed-point text of a positive value given by its digits
/// and the decimal place of its leading digit.
pub fn push_digits_fixed(chars: &mut Vec<char>, digits: Vec<u8>, exp: i32, precision: Option<usize>)
    requires
        -0x8000 <= exp <= 0x8000,
        digits@.len() <= 0x8000_0000,
        digit_values_only(digits@),
        precision matches Some(p) ==> p <= 0x4000_0000,
    ensures
        final (chars)@ == old(chars)@ + fixed_chars(digits@, exp as int, precision),
{
    let mut digits = digits;
    let mut e = exp;
    proof {
        lemma_trim_zeros_prefix(digits@, zeros_min(exp as int));
    }
    adjust_zeros(&mut digits, e);
    adjust_prec(&mut digits, &mut e, precision);
    let mut placed = place_decimal(&digits, e);
    chars.append(&mut placed);
}

/// Appends the text of the mantissa of a value in exponent notation: its
/// digits rendered as a fixed-point number with one digit before the
/// point.
pub fn push_digits_exp(chars: &mut Vec<char>, digits: Vec<u8>, precision: Option<usize>)
    requires
        digits@.len() <= 0x8000_0000,
        digit_values_only(digits@),
        precision matches Some(p) ==> p <= 0x4000_0000,
    ensures
        final (chars)@ == old(chars)@ + fixed_chars(digits@, 0, precision),
{
    push_digits_fixed(chars, digits, 0, precision);
}

/// The body of a value's fixed-point text, after the sign: the spelling of
/// NaN, an infinity or a zero read from the leading component, or the
/// digits placed around the decimal point.
pub open spec fn body_fixed(
    value: TwoFloat,
    s: Seq<u8>,
    exp: int,
    precision: Option<usize>,
) -> Seq<char> {
    if is_nan_bits(value.hi) {
        nan_chars()
    } else if is_inf_bits(value.hi) {
        inf_chars()
    } else if is_zero_bits(value.hi) {
        zero_chars(precision)
    } else {
        fixed_chars(s, exp, precision)
    }
}

/// Renders a value in fixed-point notation. The sign and the special
/// spellings are read from the value itself; a finite nonzero value is
/// rendered from `digits`, the decimal digits of its absolute value, with
/// `exp` the decimal place of the leading digit.
pub fn format_fixed(value: &TwoFloat, digits: Vec<u8>, exp: i32, f: &FormatSpec) -> (r: Vec<char>)
    requires
        -0x8000 <= exp <= 0x8000,
        digits@.len() <= 0x8000_0000,
        digit_values_only(digits@),
        f.precision matches Some(p) ==> p <= 0x4000_0000,
    ensures
        r@ == align_spec(
            sign_chars(sign_bit(value.hi), f.sign_plus) + body_fixed(
                *value,
                digits@,
                exp as int,
                f.precision,
            ),
            sign_bit(value.hi) || f.sign_plus,
            f.width,
            f.fill,
            f.align,
            f.zero_pad,
        ),
{
    let mut result: Vec<char> = Vec::new();
    let signed = push_sign(&mut result, value, f.sign_plus);
    proof {
        assert(result@ =~= sign_chars(sign_bit(value.hi), f.sign_plus));
    }
    if value.is_nan() {
        push_nan(&mut result);
    } else if value.is_infinite() {
        push_inf(&mut result);
    } else if value.is_zero() {
        push_zero(&mut result, f.precision);
    } else {
        push_digits_fixed(&mut result, digits, exp, f.precision);
    }
    align_and_fill(&mut result, signed, f.width, f.fill, f.align, f.zero_pad);
    result
}

/// The body of a value's text in exponent notation, after the sign: the
/// spelling of NaN or an infinity, or the mantissa text followed by the
/// exponent marker and the decimal exponent, which is zero for a zero
/// value.
pub open spec fn body_exp(
    value: TwoFloat,
    s: Seq<u8>,
    exp: int,
    precision: Option<usize>,
    marker: char,
) -> Seq<char> {
    if is_nan_bits(value.hi) {
        nan_chars()
    } else if is_inf_bits(value.hi) {
        inf_chars()
    } else if is_zero_bits(value.hi) {
        zero_chars(precision) + seq![marker] + int_chars(0)
    } else {
        fixed_chars(s, 0, precision) + seq![marker] + int_chars(exp)
    }
}

/// Renders a value in exponent notation with the given exponent marker.
/// The sign and the special spellings are read from the value itself; a
/// finite nonzero value is rendered from `digits`, the decimal digits of
/// its absolute value, with `exp` the decimal place of the leading digit.
#[verifier::rlimit(60)]
pub fn format_exp(
    value: &TwoFloat,
    digits: Vec<u8>,
    exp: i32,
    f: &FormatSpec,
    marker: char,
) -> (r: Vec<char>)
    requires
        digits@.len() <= 0x8000_0000,
        digit_values_only(digits@),
        f.precision matches Some(p) ==> p <= 0x4000_0000,
    ensures
        r@ == align_spec(
            sign_chars(sign_bit(value.hi), f.sign_plus) + body_exp(
                *value,
                digits@,
                exp as int,
                f.precision,
                marker,
            ),
            sign_bit(value.hi) || f.sign_plus,
            f.width,
            f.fill,
            f.align,
            f.zero_pad,
        ),
{
    let mut result: Vec<char> = Vec::new();
    let signed = push_sign(&mut result, value, f.sign_plus);
    proof {
        assert(result@ =~= sign_chars(sign_bit(value.hi), f.sign_plus));
    }
    if value.is_nan() {
        push_nan(&mut result);
    } else if value.is_infinite() {
        push_inf(&mut result);
    } else if value.is_zero() {
        push_zero(&mut result, f.precision);
        push_exp(&mut result, marker, 0);
        proof {
            assert(result@ =~= sign_chars(sign_bit(value.hi), f.sign_plus) + body_exp(
                *value,
                digits@,
                exp as int,
                f.precision,
                marker,
            ));
        }
    } else {
        push_digits_exp(&mut result, digits, f.precision);
        push_exp(&mut result, marker, exp);
        proof {
            assert(result@ =~= sign_chars(sign_bit(value.hi), f.sign_plus) + body_exp(
                *value,
                digits@,
                exp as int,
                f.precision,
                marker,
            ));
        }
    }
    align_and_fill(&mut result, signed, f.width, f.fill, f.align, f.zero_pad);
    result
}

} // verus!
