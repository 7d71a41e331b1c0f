use twofloat::consts;
use twofloat::from_str::{parse, parse_i32, pre_from_str, Parsed, TwoFloatError};

fn parse_number(s: &str) -> (Vec<u8>, bool, i64) {
    match parse(s.as_bytes()) {
        Ok(Parsed::Number(n)) => (n.digits, n.negative, n.exponent),
        _ => panic!("expected a decomposed number for {:?}", s),
    }
}

fn parse_err(s: &str) -> TwoFloatError {
    match parse(s.as_bytes()) {
        Err(e) => e,
        _ => panic!("expected an error for {:?}", s),
    }
}

#[test]
fn empty() {
    assert_eq!(TwoFloatError::ParseEmptyString, parse_err(""));
    assert_eq!(TwoFloatError::ParseEmptyString, parse_err("   "));
}

#[test]
fn double_sign() {
    assert_eq!(TwoFloatError::ParseInvalidFormat, parse_err("++2317"));
}

#[test]
fn double_point() {
    assert_eq!(TwoFloatError::ParseInvalidFormat, parse_err("2.31.7"));
}

#[test]
fn mid_sign() {
    assert_eq!(TwoFloatError::ParseInvalidFormat, parse_err("2-317"));
}

#[test]
fn end_letter() {
    assert_eq!(TwoFloatError::ParseInvalidFormat, parse_err("2.317err"));
}

#[test]
fn mid_letter() {
    assert_eq!(TwoFloatError::ParseInvalidFormat, parse_err("2.3j7"));
}

#[test]
fn bad_exponent() {
    assert_eq!(TwoFloatError::ParseInvalidFormat, parse_err("2e"));
    assert_eq!(TwoFloatError::ParseInvalidFormat, parse_err("2e+"));
    assert_eq!(TwoFloatError::ParseInvalidFormat, parse_err("2e1.5"));
    assert_eq!(TwoFloatError::ParseInvalidFormat, parse_err("2e99999999999"));
}

#[test]
fn special_spellings() {
    assert_eq!(pre_from_str(b"nan"), Some(Ok(consts::nan())));
    assert_eq!(pre_from_str(b"inf"), Some(Ok(consts::infinity())));
    assert_eq!(pre_from_str(b"infinity"), Some(Ok(consts::infinity())));
    assert_eq!(pre_from_str(b"-inf"), Some(Ok(consts::neg_infinity())));
    assert_eq!(pre_from_str(b"-infinity"), Some(Ok(consts::neg_infinity())));
    assert_eq!(pre_from_str(b""), Some(Err(TwoFloatError::ParseEmptyString)));
    assert_eq!(pre_from_str(b"nanx"), None);
    assert_eq!(pre_from_str(b"infinit"), None);
}

#[test]
fn parse_recognizes_specials_case_insensitively() {
    match parse(b"  NaN ") {
        Ok(Parsed::Special(v)) => assert_eq!(v, consts::nan()),
        _ => panic!("expected the NaN spelling"),
    }
    match parse(b"-Infinity") {
        Ok(Parsed::Special(v)) => assert_eq!(v, consts::neg_infinity()),
        _ => panic!("expected the negative infinity spelling"),
    }
}

#[test]
fn single_int() {
    let (digits, negative, exponent) = parse_number("2317");
    assert_eq!(digits, vec![2, 3, 1, 7]);
    assert!(!negative);
    assert_eq!(exponent, 0);
}

#[test]
fn underscores_are_ignored() {
    let (digits, negative, exponent) = parse_number("16_777_216");
    assert_eq!(digits, vec![1, 6, 7, 7, 7, 2, 1, 6]);
    assert!(!negative);
    assert_eq!(exponent, 0);
}

#[test]
fn fraction_digits_lower_the_exponent() {
    let (digits, negative, exponent) = parse_number("0.99908447265625");
    assert_eq!(digits, vec![0, 9, 9, 9, 0, 8, 4, 4, 7, 2, 6, 5, 6, 2, 5]);
    assert!(!negative);
    assert_eq!(exponent, -14);
}

#[test]
fn negative_sign_is_recorded() {
    let (digits, negative, exponent) = parse_number("-12.5");
    assert_eq!(digits, vec![1, 2, 5]);
    assert!(negative);
    assert_eq!(exponent, -1);
}

#[test]
fn plus_sign_is_not_negative() {
    let (digits, negative, exponent) = parse_number("+0.5");
    assert_eq!(digits, vec![0, 5]);
    assert!(!negative);
    assert_eq!(exponent, -1);
}

#[test]
fn explicit_exponent_combines_with_the_point() {
    let (digits, negative, exponent) = parse_number("1.5e3");
    assert_eq!(digits, vec![1, 5]);
    assert!(!negative);
    assert_eq!(exponent, 2);

    let (digits, _, exponent) = parse_number("0.9999999995343387126922607421875e-100");
    assert_eq!(digits.len(), 32);
    assert_eq!(exponent, -131);
}

#[test]
fn uppercase_exponent_marker_is_accepted() {
    let (digits, _, exponent) = parse_number("2E5");
    assert_eq!(digits, vec![2]);
    assert_eq!(exponent, 5);
}

#[test]
fn parse_i32_values() {
    assert_eq!(parse_i32(b"0"), Ok(0));
    assert_eq!(parse_i32(b"307"), Ok(307));
    assert_eq!(parse_i32(b"-308"), Ok(-308));
    assert_eq!(parse_i32(b"+12"), Ok(12));
    assert_eq!(parse_i32(b"2147483647"), Ok(2147483647));
    assert_eq!(parse_i32(b"-2147483648"), Ok(-2147483648));
    assert_eq!(parse_i32(b"2147483648"), Err(TwoFloatError::ParseInvalidFormat));
    assert_eq!(parse_i32(b"-2147483649"), Err(TwoFloatError::ParseInvalidFormat));
    assert_eq!(parse_i32(b""), Err(TwoFloatError::ParseInvalidFormat));
    assert_eq!(parse_i32(b"-"), Err(TwoFloatError::ParseInvalidFormat));
    assert_eq!(parse_i32(b"1x"), Err(TwoFloatError::ParseInvalidFormat));
}

#[test]
fn scale_stages_split_small_exponents() {
    let (digits, _, _) = parse_number("5");
    let n = twofloat::from_str::ParsedNumber { digits, negative: false, exponent: -320 };
    assert_eq!(n.scale_stages(), (-13, -307));
    let m = twofloat::from_str::ParsedNumber { digits: vec![5], negative: false, exponent: -100 };
    assert_eq!(m.scale_stages(), (-100, 0));
}
