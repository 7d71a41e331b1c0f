//! Parsing of decimal strings into extended-precision values.
//!
//! The input is a byte string of ASCII text. It is trimmed (ASCII
//! whitespace only: a caller holding text with wider whitespace strips it
//! before handing the bytes over) and lowercased,
//! the special spellings (empty, `nan`, `inf`, `infinity`, with optional
//! leading minus) are recognized first, and everything else is scanned as a
//! decimal number: an optional sign, digits with at most one decimal point
//! and ignored underscores, and an optional exponent marker `e` followed by
//! a decimal integer. The scan yields the digit values, the sign and the
//! power of ten that scales them; turning those into the two components is
//! arithmetic on the represented numbers and is left to the caller of the
//! decomposition.

use crate::consts;
use crate::TwoFloat;
use vstd::prelude::*;
use vstd::slice::slice_subrange;

verus! {

/// The errors that parsing reports.
#[derive(Clone, Copy, Debug, PartialEq, Eq, Structural)]
pub enum TwoFloatError {
    /// The input was empty after trimming.
    ParseEmptyString,
    /// The input was not a well-formed decimal number.
    ParseInvalidFormat,
}

/// A decimal number taken apart: the digit values of the mantissa in order,
/// whether the number is negative, and the power of ten that scales the
/// mantissa read as an integer.
pub struct ParsedNumber {
    /// Each mantissa digit as a value in `0 ..= 9`, most significant first.
    pub digits: Vec<u8>,
    /// Whether a minus sign was given.
    pub negative: bool,
    /// The power of ten by which the digit string, read as an integer,
    /// is scaled.
    pub exponent: i64,
}

/// What a string parses to: a special value recognized by its spelling, or
/// a decimal number taken apart.
pub enum Parsed {
    /// One of the specially spelled values: NaN or an infinity.
    Special(TwoFloat),
    /// A decimal number, decomposed.
    Number(ParsedNumber),
}

/// An ASCII whitespace byte.
pub open spec fn is_ascii_ws(b: u8) -> bool {
    b == 32 || (9 <= b && b <= 13)
}

/// An ASCII decimal digit byte.
pub open spec fn is_digit_byte(b: u8) -> bool {
    48 <= b && b <= 57
}

/// The string with its leading whitespace removed.
pub open spec fn trim_front(s: Seq<u8>) -> Seq<u8>
    decreases s.len(),
{
    if s.len() > 0 && is_ascii_ws(s[0]) {
        trim_front(s.drop_first())
    } else {
        s
    }
}

/// The string with its trailing whitespace removed.
pub open spec fn trim_back(s: Seq<u8>) -> Seq<u8>
    decreases s.len(),
{
    if s.len() > 0 && is_ascii_ws(s[s.len() - 1]) {
        trim_back(s.drop_last())
    } else {
        s
    }
}

/// The string with whitespace removed from both ends.
pub open spec fn trim_spec(s: Seq<u8>) -> Seq<u8> {
    trim_back(trim_front(s))
}

/// An ASCII uppercase letter mapped to its lowercase form; every other byte
/// unchanged.
pub open spec fn lower_byte(b: u8) -> u8 {
    if 65 <= b && b <= 90 {
        (b + 32) as u8
    } else {
        b
    }
}

/// The string with every ASCII uppercase letter lowercased.
pub open spec fn lower_spec(s: Seq<u8>) -> Seq<u8> {
    s.map_values(|b: u8| lower_byte(b))
}

/// The spelling `nan`.
pub open spec fn nan_token() -> Seq<u8> {
    seq![110u8, 97u8, 110u8]
}

/// The spelling `inf`.
pub open spec fn inf_token() -> Seq<u8> {
    seq![105u8, 110u8, 102u8]
}

/// The spelling `infinity`.
pub open spec fn infinity_token() -> Seq<u8> {
    seq![105u8, 110u8, 102u8, 105u8, 110u8, 105u8, 116u8, 121u8]
}

/// What the special-spelling check yields on a trimmed, lowercased string:
/// the empty-input error for an empty string, NaN and the infinities for
/// their spellings, and nothing for everything else.
pub open spec fn pre_from_str_spec(s: Seq<u8>) -> Option<Result<TwoFloat, TwoFloatError>> {
    if s.len() == 0 {
        Some(Err(TwoFloatError::ParseEmptyString))
    } else if s == nan_token() {
        Some(Ok(TwoFloat { hi: 0x7FF8000000000000, lo: 0x7FF8000000000000 }))
    } else if s == inf_token() || s == infinity_token() {
        Some(Ok(TwoFloat { hi: 0x7FF0000000000000, lo: 0 }))
    } else if s == seq![45u8] + inf_token() || s == seq![45u8] + infinity_token() {
        Some(Ok(TwoFloat { hi: 0xFFF0000000000000, lo: 0 }))
    } else {
        None
    }
}

/// The digits of an integer literal after its optional sign.
pub open spec fn int_body(t: Seq<u8>) -> Seq<u8> {
    if t.len() > 0 && (t[0] == 43 || t[0] == 45) {
        t.drop_first()
    } else {
        t
    }
}

/// Whether an integer literal carries a minus sign.
pub open spec fn int_negative(t: Seq<u8>) -> bool {
    t.len() > 0 && t[0] == 45
}

/// Every byte of the string is a decimal digit.
pub open spec fn all_digits(t: Seq<u8>) -> bool {
    forall|i: int| 0 <= i < t.len() ==> is_digit_byte(#[trigger] t[i])
}

/// The number a digit string denotes in base ten.
pub open spec fn digits_val(t: Seq<u8>) -> int
    decreases t.len(),
{
    if t.len() <= 0 {
        0
    } else {
        digits_val(t.drop_last()) * 10 + (t[t.len() - 1] - 48)
    }
}

/// A well-formed `i32` literal: an optional sign, then at least one digit,
/// denoting a value in the `i32` range.
pub open spec fn valid_i32(t: Seq<u8>) -> bool {
    let b = int_body(t);
    &&& b.len() > 0
    &&& all_digits(b)
    &&& if int_negative(t) {
        digits_val(b) <= 0x8000_0000
    } else {
        digits_val(b) <= 0x7FFF_FFFF
    }
}

/// The value an `i32` literal denotes.
pub open spec fn i32_value(t: Seq<u8>) -> int {
    if int_negative(t) {
        -digits_val(int_body(t))
    } else {
        digits_val(int_body(t))
    }
}

/// A digit string denotes a non-negative number.
proof fn lemma_digits_val_nonneg(t: Seq<u8>)
    requires
        all_digits(t),
    ensures
        digits_val(t) >= 0,
    decreases t.len(),
{
    if t.len() > 0 {
        assert forall|i: int| 0 <= i < t.drop_last().len() implies is_digit_byte(
            #[trigger] t.drop_last()[i],
        ) by {
            assert(t.drop_last()[i] == t[i]);
        }
        lemma_digits_val_nonneg(t.drop_last());
    }
}

/// Extending a digit string never shrinks the number it denotes: the whole
/// string denotes at least what any prefix denotes.
proof fn lemma_digits_val_prefix(t: Seq<u8>, k: int)
    requires
        all_digits(t),
        0 <= k <= t.len(),
    ensures
        digits_val(t) >= digits_val(t.subrange(0, k)),
    decreases t.len() - k,
{
    if k < t.len() {
        assert(t.subrange(0, k + 1).drop_last() =~= t.subrange(0, k));
        assert forall|i: int| 0 <= i < t.subrange(0, k).len() implies is_digit_byte(
            #[trigger] t.subrange(0, k)[i],
        ) by {
            assert(t.subrange(0, k)[i] == t[i]);
        }
        lemma_digits_val_nonneg(t.subrange(0, k));
        assert(digits_val(t.subrange(0, k + 1)) >= digits_val(t.subrange(0, k)));
        lemma_digits_val_prefix(t, k + 1);
    } else {
        assert(t.subrange(0, t.len() as int) =~= t);
    }
}

/// Parses a decimal integer literal into an `i32`: an optional sign, then
/// at least one digit. A malformed literal, or one denoting a value outside
/// the `i32` range, is an invalid-format error.
pub fn parse_i32(t: &[u8]) -> (r: Result<i32, TwoFloatError>)
    ensures
        valid_i32(t@) ==> (r matches Ok(v) && v as int == i32_value(t@)),
        !valid_i32(t@) ==> r == Err::<i32, TwoFloatError>(TwoFloatError::ParseInvalidFormat),
{
    let neg = t.len() > 0 && t[0] == 45;
    let start: usize = if t.len() > 0 && (t[0] == 43 || t[0] == 45) {
        1
    } else {
        0
    };
    if t.len() == start {
        return Err(TwoFloatError::ParseInvalidFormat);
    }
    let bound: i64 = if neg {
        0x8000_0000
    } else {
        0x7FFF_FFFF
    };
    let ghost body = int_body(t@);
    proof {
        assert(body.len() == t@.len() - start);
        assert(body.subrange(0, 0) =~= Seq::<u8>::empty());
    }
    let mut acc: i64 = 0;
    let mut i: usize = start;
    while i < t.len()
        invariant
            start <= i <= t@.len(),
            start == if t@.len() > 0 && (t@[0] == 43 || t@[0] == 45) {
                1int
            } else {
                0int
            },
            neg == int_negative(t@),
            bound == if neg {
                0x8000_0000i64
            } else {
                0x7FFF_FFFFi64
            },
            body == int_body(t@),
            body.len() == t@.len() - start,
            forall|k: int| 0 <= k < body.len() ==> body[k] == t@[k + start],
            all_digits(body.subrange(0, i - start)),
            acc == digits_val(body.subrange(0, i - start)),
            0 <= acc <= bound,
        decreases t@.len() - i,
    {
        let c = t[i];
        if !(48 <= c && c <= 57) {
            proof {
                assert(body[i - start] == t@[i as int]);
                assert(!is_digit_byte(body[i - start]));
            }
            return Err(TwoFloatError::ParseInvalidFormat);
        }
        let d: i64 = (c - 48) as i64;
        let next: i64 = acc * 10 + d;
        proof {
            assert(body.subrange(0, i - start + 1).drop_last() =~= body.subrange(0, i - start));
            assert(body[i - start] == t@[i as int]);
            assert(digits_val(body.subrange(0, i - start + 1)) == acc * 10 + d);
            assert forall|k: int| 0 <= k < i - start + 1 implies is_digit_byte(
                #[trigger] body.subrange(0, i - start + 1)[k],
            ) by {
                assert(body.subrange(0, i - start + 1)[k] == body.subrange(0, i - start + 1)[k]);
                if k < i - start {
                    assert(body.subrange(0, i - start + 1)[k] == body.subrange(0, i - start)[k]);
                } else {
                    assert(body.subrange(0, i - start + 1)[k] == body[i - start]);
                }
            }
        }
        if next > bound {
            proof {
                if valid_i32(t@) {
                    lemma_digits_val_prefix(body, i - start + 1);
                }
            }
            return Err(TwoFloatError::ParseInvalidFormat);
        }
        acc = next;
        i = i + 1;
    }
    proof {
        assert(body.subrange(0, body.len() as int) =~= body);
    }
    if neg {
        Ok((-acc) as i32)
    } else {
        Ok(acc as i32)
    }
}

/// Count of digit bytes among the first `n` bytes.
pub open spec fn digit_count(s: Seq<u8>, n: int) -> int
    decreases n,
{
    if n <= 0 {
        0
    } else {
        digit_count(s, n - 1) + if is_digit_byte(s[n - 1]) {
            1int
        } else {
            0int
        }
    }
}

/// The digit values among the first `n` bytes, in order.
pub open spec fn digit_values(s: Seq<u8>, n: int) -> Seq<u8>
    decreases n,
{
    if n <= 0 {
        Seq::empty()
    } else if is_digit_byte(s[n - 1]) {
        digit_values(s, n - 1).push((s[n - 1] - 48) as u8)
    } else {
        digit_values(s, n - 1)
    }
}

/// A sign byte appears among the first `n` bytes.
pub open spec fn has_sign(s: Seq<u8>, n: int) -> bool
    decreases n,
{
    if n <= 0 {
        false
    } else {
        has_sign(s, n - 1) || s[n - 1] == 43 || s[n - 1] == 45
    }
}

/// A minus byte appears among the first `n` bytes.
pub open spec fn has_minus(s: Seq<u8>, n: int) -> bool
    decreases n,
{
    if n <= 0 {
        false
    } else {
        has_minus(s, n - 1) || s[n - 1] == 45
    }
}

/// A decimal point appears among the first `n` bytes.
pub open spec fn has_point(s: Seq<u8>, n: int) -> bool
    decreases n,
{
    if n <= 0 {
        false
    } else {
        has_point(s, n - 1) || s[n - 1] == 46
    }
}

/// The count of digits that precede the first decimal point among the
/// first `n` bytes; zero when there is no point.
pub open spec fn point_digits(s: Seq<u8>, n: int) -> int
    decreases n,
{
    if n <= 0 {
        0
    } else if has_point(s, n - 1) {
        point_digits(s, n - 1)
    } else if s[n - 1] == 46 {
        digit_count(s, n - 1)
    } else {
        point_digits(s, n - 1)
    }
}

/// The position of the first exponent marker `e` at or after `i`, or the
/// length of the string when there is none.
pub open spec fn e_pos_from(s: Seq<u8>, i: int) -> int
    decreases s.len() - i,
{
    if i < 0 || i >= s.len() {
        s.len() as int
    } else if s[i] == 101 {
        i
    } else {
        e_pos_from(s, i + 1)
    }
}

/// The position of the first exponent marker `e`, or the length of the
/// string when there is none.
pub open spec fn e_pos(s: Seq<u8>) -> int {
    e_pos_from(s, 0)
}

/// Whether the byte at `i`, standing before the exponent marker, is legal
/// where it is: digits and underscores always, a decimal point only where
/// none came before, a sign only where no sign and no digit came before.
pub open spec fn ok_char(s: Seq<u8>, i: int) -> bool {
    let c = s[i];
    if is_digit_byte(c) || c == 95 {
        true
    } else if c == 46 {
        !has_point(s, i)
    } else if c == 43 || c == 45 {
        !has_sign(s, i) && digit_count(s, i) == 0
    } else {
        false
    }
}

/// A well-formed number string: every byte before the exponent marker is
/// legal where it stands, and the part after the marker, when there is
/// one, is a well-formed `i32` literal.
pub open spec fn scan_ok(s: Seq<u8>) -> bool {
    &&& forall|i: int| 0 <= i < e_pos(s) ==> ok_char(s, i)
    &&& e_pos(s) < s.len() ==> valid_i32(s.subrange(e_pos(s) + 1, s.len() as int))
}

/// The mantissa digits of a number string.
pub open spec fn number_digits(s: Seq<u8>) -> Seq<u8> {
    digit_values(s, e_pos(s))
}

/// Whether a number string is negated.
pub open spec fn number_negative(s: Seq<u8>) -> bool {
    has_minus(s, e_pos(s))
}

/// The power of ten that scales the mantissa digits of a number string
/// read as an integer: the exponent given after the marker, less the count
/// of mantissa digits that follow the decimal point.
pub open spec fn number_exponent(s: Seq<u8>) -> int {
    (if e_pos(s) < s.len() {
        i32_value(s.subrange(e_pos(s) + 1, s.len() as int))
    } else {
        0
    }) - (if has_point(s, e_pos(s)) {
        digit_count(s, e_pos(s)) - point_digits(s, e_pos(s))
    } else {
        0
    })
}

/// The first exponent-marker position lies between `i` and the length.
proof fn lemma_e_pos_from_range(s: Seq<u8>, i: int)
    requires
        0 <= i <= s.len(),
    ensures
        i <= e_pos_from(s, i) <= s.len(),
    decreases s.len() - i,
{
    if i < s.len() && s[i] != 101 {
        lemma_e_pos_from_range(s, i + 1);
    }
}

/// Removes ASCII whitespace from both ends of a byte string.
fn trim(s: &[u8]) -> (r: &[u8])
    ensures
        r@ == trim_spec(s@),
        r@.len() <= s@.len(),
{
    let mut i: usize = 0;
    let mut j: usize = s.len();
    proof {
        assert(s@.subrange(0, s@.len() as int) =~= s@);
    }
    while i < j && (s[i] == 32 || (9 <= s[i] && s[i] <= 13))
        invariant
            0 <= i <= j <= s@.len(),
            j == s@.len(),
            trim_front(s@) == trim_front(s@.subrange(i as int, s@.len() as int)),
        decreases j - i,
    {
        proof {
            assert(s@.subrange(i as int, s@.len() as int).drop_first() =~= s@.subrange(
                i as int + 1,
                s@.len() as int,
            ));
        }
        i = i + 1;
    }
    proof {
        assert(trim_front(s@) =~= s@.subrange(i as int, s@.len() as int));
    }
    while j > i && (s[j - 1] == 32 || (9 <= s[j - 1] && s[j - 1] <= 13))
        invariant
            0 <= i <= j <= s@.len(),
            trim_front(s@) == s@.subrange(i as int, s@.len() as int),
            trim_spec(s@) == trim_back(s@.subrange(i as int, j as int)),
        decreases j,
    {
        proof {
            assert(s@.subrange(i as int, j as int).drop_last() =~= s@.subrange(
                i as int,
                j as int - 1,
            ));
        }
        j = j - 1;
    }
    proof {
        assert(trim_spec(s@) =~= s@.subrange(i as int, j as int));
    }
    slice_subrange(s, i, j)
}

/// Lowercases every ASCII uppercase byte of a byte string.
fn to_lowercase(s: &[u8]) -> (r: Vec<u8>)
    ensures
        r@ == lower_spec(s@),
{
    let mut out: Vec<u8> = Vec::new();
    let mut i: usize = 0;
    while i < s.len()
        invariant
            0 <= i <= s@.len(),
            out@ == lower_spec(s@.subrange(0, i as int)),
        decreases s@.len() - i,
    {
        let c = s[i];
        if 65 <= c && c <= 90 {
            out.push(c + 32);
        } else {
            out.push(c);
        }
        proof {
            assert(lower_spec(s@.subrange(0, i as int + 1)) =~= lower_spec(
                s@.subrange(0, i as int),
            ).push(lower_byte(s@[i as int])));
        }
        i = i + 1;
    }
    proof {
        assert(s@.subrange(0, s@.len() as int) =~= s@);
    }
    out
}

/// Recognizes the spelling `nan`.
fn is_nan_token(s: &[u8]) -> (r: bool)
    ensures
        r == (s@ == nan_token()),
{
    let r = s.len() == 3 && s[0] == 110 && s[1] == 97 && s[2] == 110;
    proof {
        if r {
            assert(s@ =~= nan_token());
        }
    }
    r
}

/// Recognizes the spelling `inf`.
fn is_inf_token(s: &[u8]) -> (r: bool)
    ensures
        r == (s@ == inf_token()),
{
    let r = s.len() == 3 && s[0] == 105 && s[1] == 110 && s[2] == 102;
    proof {
        if r {
            assert(s@ =~= inf_token());
        }
    }
    r
}

/// Recognizes the spelling `infinity`.
fn is_infinity_token(s: &[u8]) -> (r: bool)
    ensures
        r == (s@ == infinity_token()),
{
    let r = s.len() == 8 && s[0] == 105 && s[1] == 110 && s[2] == 102 && s[3] == 105 && s[4] == 110
        && s[5] == 105 && s[6] == 116 && s[7] == 121;
    proof {
        if r {
            assert(s@ =~= infinity_token());
        }
    }
    r
}

/// Checks a trimmed, lowercased string for the specially spelled values:
/// the empty string reports the empty-input error, `nan` and the infinity
/// spellings yield their values, and any other string is handed on to the
/// number scan.
pub fn pre_from_str(s: &[u8]) -> (r: Option<Result<TwoFloat, TwoFloatError>>)
    ensures
        r == pre_from_str_spec(s@),
{
    if s.is_empty() {
        Some(Err(TwoFloatError::ParseEmptyString))
    } else if is_nan_token(s) {
        Some(Ok(consts::nan()))
    } else if is_inf_token(s) || is_infinity_token(s) {
        Some(Ok(consts::infinity()))
    } else if s[0] == 45 && {
        let rest = slice_subrange(s, 1, s.len());
        is_inf_token(rest) || is_infinity_token(rest)
    } {
        proof {
            if s@.subrange(1, s@.len() as int) == inf_token() {
                assert(s@ =~= seq![45u8] + inf_token());
            }
            if s@.subrange(1, s@.len() as int) == infinity_token() {
                assert(s@ =~= seq![45u8] + infinity_token());
            }
        }
        Some(Ok(consts::neg_infinity()))
    } else {
        proof {
            if s@ == seq![45u8] + inf_token() {
                assert(s@[0] == 45u8);
                assert(s@.subrange(1, s@.len() as int) =~= inf_token());
            }
            if s@ == seq![45u8] + infinity_token() {
                assert(s@[0] == 45u8);
                assert(s@.subrange(1, s@.len() as int) =~= infinity_token());
            }
        }
        None
    }
}

/// Scans a trimmed, lowercased string that spells no special value as a
/// decimal number, and reports the invalid-format error exactly on the
/// strings that the grammar rejects.
fn scan_number(s: &[u8]) -> (r: Result<Parsed, TwoFloatError>)
    requires
        s@.len() < 0x8000_0000,
    ensures
        scan_ok(s@) ==> (r matches Ok(p) && p matches Parsed::Number(q) && q.digits@
            == number_digits(s@) && q.negative == number_negative(s@) && q.exponent
            == number_exponent(s@)),
        !scan_ok(s@) ==> r == Err::<Parsed, TwoFloatError>(TwoFloatError::ParseInvalidFormat),
{
    let mut digits: Vec<u8> = Vec::new();
    let mut dcount: u32 = 0;
    let mut point: i64 = -1;
    let mut seen_sign = false;
    let mut negative = false;
    let mut i: usize = 0;
    while i < s.len()
        invariant
            0 <= i <= s@.len(),
            s@.len() < 0x8000_0000,
            e_pos(s@) == e_pos_from(s@, i as int),
            forall|j: int| 0 <= j < i ==> ok_char(s@, j),
            digits@ == digit_values(s@, i as int),
            dcount == digit_count(s@, i as int),
            (point == -1) == !has_point(s@, i as int),
            has_point(s@, i as int) ==> point == point_digits(s@, i as int),
            -1 <= point <= dcount,
            seen_sign == has_sign(s@, i as int),
            negative == has_minus(s@, i as int),
            dcount <= i,
        decreases s@.len() - i,
    {
        let c = s[i];
        if 48 <= c && c <= 57 {
            digits.push(c - 48);
            dcount = dcount + 1;
        } else if c == 46 {
            if point >= 0 {
                proof {
                    lemma_e_pos_from_range(s@, i as int + 1);
                    assert(e_pos_from(s@, i as int) == e_pos_from(s@, i as int + 1));
                    assert(!ok_char(s@, i as int));
                }
                return Err(TwoFloatError::ParseInvalidFormat);
            }
            point = dcount as i64;
        } else if c == 45 || c == 43 {
            if seen_sign || dcount > 0 {
                proof {
                    lemma_e_pos_from_range(s@, i as int + 1);
                    assert(e_pos_from(s@, i as int) == e_pos_from(s@, i as int + 1));
                    assert(!ok_char(s@, i as int));
                }
                return Err(TwoFloatError::ParseInvalidFormat);
            }
            seen_sign = true;
            if c == 45 {
                negative = true;
            }
        } else if c == 101 {
            let rest = slice_subrange(s, i + 1, s.len());
            match parse_i32(rest) {
                Ok(v) => {
                    let exponent: i64 = (v as i64) - (if point >= 0 {
                        (dcount as i64) - point
                    } else {
                        0
                    });
                    return Ok(Parsed::Number(ParsedNumber { digits, negative, exponent }));
                },
                Err(e) => {
                    return Err(e);
                },
            }
        } else if c == 95 {
            // An underscore separates digit groups and is not an error.
        } else {
            proof {
                lemma_e_pos_from_range(s@, i as int + 1);
                assert(e_pos_from(s@, i as int) == e_pos_from(s@, i as int + 1));
                assert(!ok_char(s@, i as int));
            }
            return Err(TwoFloatError::ParseInvalidFormat);
        }
        i = i + 1;
    }
    proof {
        assert(e_pos_from(s@, i as int) == s@.len());
    }
    let exponent: i64 = 0 - (if point >= 0 {
        (dcount as i64) - point
    } else {
        0
    });
    Ok(Parsed::Number(ParsedNumber { digits, negative, exponent }))
}

/// Parses an ASCII byte string as the text of a value: the string
/// is trimmed of ASCII whitespace and lowercased, the special spellings
/// are recognized, and
/// everything else is scanned as a decimal number and handed back taken
/// apart. The invalid-format error comes exactly on the strings that the
/// grammar rejects, and the empty-input error exactly on strings that trim
/// to nothing.
pub fn parse(s: &[u8]) -> (r: Result<Parsed, TwoFloatError>)
    requires
        s@.len() < 0x8000_0000,
    ensures
        (pre_from_str_spec(lower_spec(trim_spec(s@))) matches Some(v) ==> r == (match v {
            Ok(t) => Ok::<Parsed, TwoFloatError>(Parsed::Special(t)),
            Err(e) => Err::<Parsed, TwoFloatError>(e),
        })),
        (pre_from_str_spec(lower_spec(trim_spec(s@))) is None && scan_ok(
            lower_spec(trim_spec(s@)),
        ) ==> (r matches Ok(p) && p matches Parsed::Number(q) && q.digits@ == number_digits(
            lower_spec(trim_spec(s@)),
        ) && q.negative == number_negative(lower_spec(trim_spec(s@))) && q.exponent
            == number_exponent(lower_spec(trim_spec(s@))))),
        (pre_from_str_spec(lower_spec(trim_spec(s@))) is None && !scan_ok(
            lower_spec(trim_spec(s@)),
        ) ==> r == Err::<Parsed, TwoFloatError>(TwoFloatError::ParseInvalidFormat)),
{
    let t = trim(s);
    let n = to_lowercase(t);
    match pre_from_str(n.as_slice()) {
        Some(found) => match found {
            Ok(v) => Ok(Parsed::Special(v)),
            Err(e) => Err(e),
        },
        None => scan_number(n.as_slice()),
    }
}

impl ParsedNumber {
    /// The two powers of ten by which the mantissa read as an integer is
    /// scaled, applied one after the other. The scaling is split so that a
    /// very small exponent is applied in two steps, keeping each step's
    /// intermediate value away from the underflow range.
    pub fn scale_stages(&self) -> (r: (i64, i64))
        requires
            -0x1_0000_0000i64 <= self.exponent <= 0x1_0000_0000i64,
        ensures
            r.0 + r.1 == self.exponent,
            self.exponent >= -307 ==> (r.0 == self.exponent && r.1 == 0),
            self.exponent < -307 ==> (r.0 == self.exponent + 307 && r.1 == -307),
    {
        if self.exponent < -307 {
            (self.exponent + 307, -307)
        } else {
            (self.exponent, 0)
        }
    }
}

} // verus!
