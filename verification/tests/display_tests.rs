use twofloat::consts;
use twofloat::display::{format_exp, format_fixed, Align, FormatSpec};
use twofloat::TwoFloat;

fn plain() -> FormatSpec {
    FormatSpec {
        sign_plus: false,
        precision: None,
        width: None,
        fill: ' ',
        align: Align::Right,
        zero_pad: false,
    }
}

fn fixed(value: TwoFloat, digits: &[u8], exp: i32, f: FormatSpec) -> String {
    format_fixed(&value, digits.to_vec(), exp, &f).into_iter().collect()
}

fn expform(value: TwoFloat, digits: &[u8], exp: i32, f: FormatSpec) -> String {
    format_exp(&value, digits.to_vec(), exp, &f, 'e').into_iter().collect()
}

fn tf(hi: f64, lo: f64) -> TwoFloat {
    TwoFloat { hi: hi.to_bits(), lo: lo.to_bits() }
}

const PI_DIGITS: [u8; 31] = [
    3, 1, 4, 1, 5, 9, 2, 6, 5, 3, 5, 8, 9, 7, 9, 3, 2, 3, 8, 4, 6, 2, 6, 4, 3, 3, 8, 3, 2, 8, 0,
];

const LN2_DIGITS: [u8; 31] = [
    6, 9, 3, 1, 4, 7, 1, 8, 0, 5, 5, 9, 9, 4, 5, 3, 0, 9, 4, 1, 7, 2, 3, 2, 1, 2, 1, 4, 5, 8, 2,
];

#[test]
fn special_values_fixed() {
    assert_eq!("NaN", fixed(consts::nan(), &[], 0, plain()));
    assert_eq!("-NaN", fixed(consts::nan().negate(), &[], 0, plain()));
    assert_eq!("+NaN", fixed(consts::nan(), &[], 0, FormatSpec { sign_plus: true, ..plain() }));
    assert_eq!("inf", fixed(consts::infinity(), &[], 0, plain()));
    assert_eq!("-inf", fixed(consts::neg_infinity(), &[], 0, plain()));
    assert_eq!("+inf", fixed(consts::infinity(), &[], 0, FormatSpec { sign_plus: true, ..plain() }));
    assert_eq!("0", fixed(consts::zero(), &[], 0, plain()));
    assert_eq!("-0", fixed(consts::neg_zero(), &[], 0, plain()));
    assert_eq!("+0", fixed(consts::zero(), &[], 0, FormatSpec { sign_plus: true, ..plain() }));
}

#[test]
fn special_values_exp() {
    assert_eq!("NaN", expform(consts::nan(), &[], 0, plain()));
    assert_eq!("inf", expform(consts::infinity(), &[], 0, plain()));
    assert_eq!("-inf", expform(consts::neg_infinity(), &[], 0, plain()));
    assert_eq!("0e0", expform(consts::zero(), &[], 0, plain()));
    assert_eq!("-0e0", expform(consts::neg_zero(), &[], 0, plain()));
    assert_eq!(
        "0.0000e0",
        expform(consts::zero(), &[], 0, FormatSpec { precision: Some(4), ..plain() })
    );
    assert_eq!(
        "0E0",
        format_exp(&consts::zero(), Vec::new(), 0, &plain(), 'E').into_iter().collect::<String>()
    );
}

#[test]
fn zero_precision_padding() {
    assert_eq!("0.0000", fixed(consts::zero(), &[], 0, FormatSpec { precision: Some(4), ..plain() }));
    assert_eq!(
        "-0.0",
        fixed(consts::neg_zero(), &[], 0, FormatSpec { precision: Some(1), ..plain() })
    );
}

#[test]
fn pi_fixed_default_drops_trailing_zero() {
    assert_eq!(
        "3.14159265358979323846264338328",
        fixed(consts::pi(), &PI_DIGITS, 0, plain())
    );
    assert_eq!(
        "-3.14159265358979323846264338328",
        fixed(consts::pi().negate(), &PI_DIGITS, 0, plain())
    );
}

#[test]
fn pi_fixed_precision() {
    assert_eq!(
        "3.14159",
        fixed(consts::pi(), &PI_DIGITS, 0, FormatSpec { precision: Some(5), ..plain() })
    );
    assert_eq!(
        "3.1415927",
        fixed(consts::pi(), &PI_DIGITS, 0, FormatSpec { precision: Some(7), ..plain() })
    );
    assert_eq!(
        "3",
        fixed(consts::pi(), &PI_DIGITS, 0, FormatSpec { precision: Some(0), ..plain() })
    );
    assert_eq!(
        "3.1415926535897932384626433832800000000000",
        fixed(consts::pi(), &PI_DIGITS, 0, FormatSpec { precision: Some(40), ..plain() })
    );
}

#[test]
fn ln2_fixed() {
    assert_eq!(
        "0.6931471805599453094172321214582",
        fixed(consts::ln_2(), &LN2_DIGITS, -1, plain())
    );
    assert_eq!(
        "1",
        fixed(consts::ln_2(), &LN2_DIGITS, -1, FormatSpec { precision: Some(0), ..plain() })
    );
    assert_eq!(
        "0.69315",
        fixed(consts::ln_2(), &LN2_DIGITS, -1, FormatSpec { precision: Some(5), ..plain() })
    );
}

#[test]
fn ln2_exp_form() {
    assert_eq!(
        "6.931471805599453094172321214582e-1",
        expform(consts::ln_2(), &LN2_DIGITS, -1, plain())
    );
    assert_eq!(
        "7e-1",
        expform(consts::ln_2(), &LN2_DIGITS, -1, FormatSpec { precision: Some(0), ..plain() })
    );
}

#[test]
fn small_value_fixed_precision() {
    let v = tf(0.016_777_216, 0.0);
    let digits: [u8; 8] = [1, 6, 7, 7, 7, 2, 1, 6];
    assert_eq!("0", fixed(v, &digits, -2, FormatSpec { precision: Some(0), ..plain() }));
    assert_eq!("0.01678", fixed(v, &digits, -2, FormatSpec { precision: Some(5), ..plain() }));
    assert_eq!("0.016777216000", fixed(v, &digits, -2, FormatSpec { precision: Some(12), ..plain() }));
    assert_eq!("1.678e-2", expform(v, &digits, -2, FormatSpec { precision: Some(3), ..plain() }));
}

#[test]
fn rounding_can_carry_into_a_new_leading_digit() {
    let v = tf(9.99, 0.0);
    let digits: [u8; 3] = [9, 9, 9];
    assert_eq!("10.0", fixed(v, &digits, 0, FormatSpec { precision: Some(1), ..plain() }));
}

#[test]
fn integer_values_pad_with_zeros() {
    let v = tf(123456.0, 0.0);
    let digits: [u8; 6] = [1, 2, 3, 4, 5, 6];
    assert_eq!("123456", fixed(v, &digits, 5, plain()));
    let w = tf(1.23e10, 0.0);
    assert_eq!("12300000000", fixed(w, &[1, 2, 3], 10, plain()));
}

#[test]
fn width_and_alignment() {
    let v = tf(123456.0, 0.0);
    let digits: [u8; 6] = [1, 2, 3, 4, 5, 6];
    let w = |f: FormatSpec| fixed(v, &digits, 5, f);
    assert_eq!("    123456", w(FormatSpec { width: Some(10), ..plain() }));
    assert_eq!("123456    ", w(FormatSpec { width: Some(10), align: Align::Left, ..plain() }));
    assert_eq!("  123456  ", w(FormatSpec { width: Some(10), align: Align::Center, ..plain() }));
    assert_eq!("0000123456", w(FormatSpec { width: Some(10), fill: '0', ..plain() }));
    assert_eq!("123456****", w(FormatSpec { width: Some(10), fill: '*', align: Align::Left, ..plain() }));
    assert_eq!("''123456''", w(FormatSpec { width: Some(10), fill: '\'', align: Align::Center, ..plain() }));
    assert_eq!("+123456", w(FormatSpec { sign_plus: true, ..plain() }));
}

#[test]
fn sign_aware_zero_padding() {
    let v = tf(123456.0, 0.0);
    let n = v.negate();
    let digits: [u8; 6] = [1, 2, 3, 4, 5, 6];
    assert_eq!(
        "-000123456",
        fixed(n, &digits, 5, FormatSpec { width: Some(10), zero_pad: true, ..plain() })
    );
    assert_eq!(
        "000-123456",
        fixed(n, &digits, 5, FormatSpec { width: Some(10), fill: '0', ..plain() })
    );
    assert_eq!(
        "-0",
        fixed(consts::neg_zero(), &[], 0, plain())
    );
    assert_eq!(
        "-000000000",
        fixed(consts::neg_zero(), &[], 0, FormatSpec { width: Some(10), zero_pad: true, ..plain() })
    );
    assert_eq!(
        "0000000NaN",
        fixed(consts::nan(), &[], 0, FormatSpec { width: Some(10), zero_pad: true, ..plain() })
    );
}

#[test]
fn one_in_every_field() {
    let one = consts::one();
    let digits: [u8; 1] = [1];
    assert_eq!("         1", fixed(one, &digits, 0, FormatSpec { width: Some(10), ..plain() }));
    assert_eq!("1         ", fixed(one, &digits, 0, FormatSpec { width: Some(10), align: Align::Left, ..plain() }));
    assert_eq!("    1     ", fixed(one, &digits, 0, FormatSpec { width: Some(10), align: Align::Center, ..plain() }));
    assert_eq!("____1_____", fixed(one, &digits, 0, FormatSpec { width: Some(10), fill: '_', align: Align::Center, ..plain() }));
    assert_eq!("0000000001", fixed(one, &digits, 0, FormatSpec { width: Some(10), zero_pad: true, ..plain() }));
    assert_eq!("       1e0", expform(one, &digits, 0, FormatSpec { width: Some(10), ..plain() }));
    assert_eq!("00000001e0", expform(one, &digits, 0, FormatSpec { width: Some(10), zero_pad: true, ..plain() }));
    assert_eq!("-0000001e0", expform(consts::neg_one(), &digits, 0, FormatSpec { width: Some(10), zero_pad: true, ..plain() }));
}

#[test]
fn tiny_magnitudes_render_their_digits() {
    // A subnormal value is nonzero, so it renders its digits rather than
    // taking the zero path.
    let v = tf(1.234567890123456789e-308, 0.0);
    let digits: [u8; 16] = [1, 2, 3, 4, 5, 6, 7, 8, 9, 0, 1, 2, 3, 4, 5, 7];
    assert_eq!(
        format!("0.{}1234567890123457", "0".repeat(307)),
        fixed(v, &digits, -308, plain())
    );
    assert_eq!("1.234567890123457e-308", expform(v, &digits, -308, plain()));
    let w = tf(1e-300, 0.0);
    assert_eq!("1e-300", expform(w, &[1], -300, plain()));
}
