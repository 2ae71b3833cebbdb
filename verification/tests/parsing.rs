use felt_fraction::error::ParseError;
use felt_fraction::fraction::{literal_form, FeltFraction, LiteralForm};
use felt_fraction::parts::FeltParts;
use num_bigint::BigUint;
use starknet_types_core::felt::Felt;

/// Parses as a caller with a float parser does: the text is read as a
/// double whatever its notation, and the library decides what to use.
fn read(text: &str) -> Result<FeltFraction, ParseError> {
    let double = text.parse::<f64>().ok().map(|value| value.to_bits());
    FeltFraction::parse(text, double)
}

fn parts(low: u128, high: u128) -> FeltParts {
    FeltParts { low: Felt::from(low), high: Felt::from(high) }
}

fn prime() -> BigUint {
    (BigUint::from(1u32) << 251u32) + (BigUint::from(17u32) << 192u32) + BigUint::from(1u32)
}

const TWO_TO_256: &str =
    "115792089237316195423570985008687907853269984665640564039457584007913129639936";

#[test]
fn integer_literal_has_denominator_one() {
    let fraction = read("5").unwrap();
    assert_eq!(fraction.numer, parts(5, 0));
    assert_eq!(fraction.denom, parts(1, 0));
}

#[test]
fn integer_literals_within_128_bits_are_their_own_low_limb() {
    for n in [0u128, 1, 9, 10, 255, 1 << 64, u128::MAX - 1, u128::MAX] {
        let fraction = read(&n.to_string()).unwrap();
        assert_eq!(fraction.numer, parts(n, 0));
        assert_eq!(fraction.numer, FeltParts::from_biguint(BigUint::from(n)));
        assert_eq!(fraction.denom, FeltParts::one());
    }
}

#[test]
fn integer_literal_above_128_bits_fills_the_high_limb() {
    // 2^128 + 7
    let fraction = read("340282366920938463463374607431768211463").unwrap();
    assert_eq!(fraction.numer, parts(7, 1));
    assert_eq!(fraction.denom, parts(1, 0));
}

#[test]
fn leading_zeros_do_not_count() {
    assert_eq!(read("000042"), read("42"));
    assert_eq!(read("000042").unwrap().numer, parts(42, 0));
}

#[test]
fn hexadecimal_literal_is_read() {
    let fraction = read("0x1f").unwrap();
    assert_eq!(fraction.numer, parts(31, 0));
    assert_eq!(fraction.denom, parts(1, 0));
}

#[test]
fn negative_literal_is_the_field_negation() {
    // -1 is the prime less one: 2^251 + 17 * 2^192.
    let fraction = read("-1").unwrap();
    assert_eq!(fraction.numer, parts(0, (1 << 123) + (17 << 64)));
    assert_eq!(fraction.numer, FeltParts::from_biguint(prime() - BigUint::from(1u32)));
    assert_eq!(fraction.denom, parts(1, 0));
}

#[test]
fn ratio_splits_at_the_slash() {
    let fraction = read("3/4").unwrap();
    assert_eq!(fraction.numer, parts(3, 0));
    assert_eq!(fraction.denom, parts(4, 0));
}

#[test]
fn ratio_takes_each_side_as_it_is() {
    let fraction = read("-5/0x10").unwrap();
    assert_eq!(fraction.numer, FeltParts::from_felt(Felt::from(-5i64)));
    assert_eq!(fraction.numer, FeltParts::from_biguint(prime() - BigUint::from(5u32)));
    assert_eq!(fraction.denom, parts(16, 0));

    let swapped = read("0x10/-5").unwrap();
    assert_eq!(swapped.numer, fraction.denom);
    assert_eq!(swapped.denom, fraction.numer);
}

#[test]
fn ratio_is_not_reduced() {
    let fraction = read("2/4").unwrap();
    assert_eq!(fraction.numer, parts(2, 0));
    assert_eq!(fraction.denom, parts(4, 0));
    assert_ne!(fraction, read("1/2").unwrap());
}

#[test]
fn zero_denominator_is_accepted() {
    let fraction = read("1/0").unwrap();
    assert_eq!(fraction.numer, parts(1, 0));
    assert_eq!(fraction.denom, parts(0, 0));
    let nothing = read("0/0").unwrap();
    assert!(nothing.is_zero());
    assert_eq!(nothing.denom, parts(0, 0));
}

#[test]
fn ratio_is_split_at_the_first_slash_only() {
    assert_eq!(read("1/2/3"), Err(ParseError::InvalidLiteral));
    assert_eq!(read("1//2"), Err(ParseError::InvalidLiteral));
}

#[test]
fn ratio_with_a_missing_side_is_refused() {
    assert_eq!(read("/"), Err(ParseError::InvalidLiteral));
    assert_eq!(read("1/"), Err(ParseError::InvalidLiteral));
    assert_eq!(read("/1"), Err(ParseError::InvalidLiteral));
    assert_eq!(read("a/1"), Err(ParseError::InvalidLiteral));
    assert_eq!(read("1/b"), Err(ParseError::InvalidLiteral));
}

#[test]
fn slash_takes_precedence_over_the_decimal_point() {
    assert_eq!(literal_form("1.5/2"), LiteralForm::Ratio);
    assert_eq!(read("1.5/2"), Err(ParseError::InvalidLiteral));
    assert_eq!(read("1/2.5"), Err(ParseError::InvalidLiteral));
}

#[test]
fn the_three_notations_are_told_apart() {
    assert_eq!(literal_form("3/4"), LiteralForm::Ratio);
    assert_eq!(literal_form("/"), LiteralForm::Ratio);
    assert_eq!(literal_form("0.5"), LiteralForm::Decimal);
    assert_eq!(literal_form("."), LiteralForm::Decimal);
    assert_eq!(literal_form("5"), LiteralForm::Integer);
    assert_eq!(literal_form(""), LiteralForm::Integer);
    assert_eq!(literal_form("inf"), LiteralForm::Integer);
    assert_eq!(literal_form("é/ü"), LiteralForm::Ratio);
}

#[test]
fn one_half_keeps_the_full_mantissa() {
    // 0.5 is 2^52 * 2^-53: nothing is cancelled.
    let fraction = read("0.5").unwrap();
    assert_eq!(fraction.numer, parts(1 << 52, 0));
    assert_eq!(fraction.denom, parts(1 << 53, 0));
    assert_eq!(fraction.numer.low + fraction.numer.low, fraction.denom.low);
}

#[test]
fn negative_double_wraps_in_128_bits() {
    // -2.0 is -(2^52) * 2^-51.
    let fraction = read("-2.0").unwrap();
    assert_eq!(fraction.numer, parts((1u128 << 52).wrapping_neg(), 0));
    assert_eq!(fraction.numer, parts(340282366920938463463370103832140840960, 0));
    assert_eq!(fraction.denom, parts(1 << 51, 0));
}

#[test]
fn one_tenth_is_the_nearest_double() {
    let fraction = read("0.1").unwrap();
    assert_eq!(fraction.numer, parts(7205759403792794, 0));
    assert_eq!(fraction.denom, parts(1 << 56, 0));
}

#[test]
fn large_double_is_shifted_up() {
    // 1e20 is 6103515625000000 * 2^14.
    let fraction = read("1.0e20").unwrap();
    assert_eq!(fraction.numer, parts(100_000_000_000_000_000_000, 0));
    assert_eq!(fraction.denom, parts(1, 0));
}

#[test]
fn double_above_128_bits_reaches_the_high_limb() {
    // 1e40 is 8271806125530277 * 2^80.
    let fraction = read("1.0e40").unwrap();
    assert_eq!(fraction.numer, parts(131811359292784863348164811482388758528, 29));
    assert_eq!(
        fraction.numer,
        FeltParts::from_biguint(BigUint::from(8271806125530277u64) << 80u32)
    );
    assert_eq!(fraction.denom, parts(1, 0));
}

#[test]
fn double_above_256_bits_loses_its_top() {
    // 1e300 is 6724873095247260 * 2^944: nothing is left below bit 256.
    let fraction = read("1.0e300").unwrap();
    assert_eq!(fraction.numer, parts(0, 0));
    assert_eq!(fraction.denom, parts(1, 0));
}

#[test]
fn small_double_has_a_denominator_in_the_high_limb() {
    // 1e-30 is 5708990770823840 * 2^-152.
    let fraction = read("1.0e-30").unwrap();
    assert_eq!(fraction.numer, parts(5708990770823840, 0));
    assert_eq!(fraction.denom, parts(0, 1 << 24));
}

#[test]
fn zero_as_a_double_has_no_denominator_left() {
    // 0.0 is 0 * 2^-1075, and 2^1075 has no bit below 256.
    for text in ["0.0", "-0.0"] {
        let fraction = read(text).unwrap();
        assert!(fraction.is_zero());
        assert_eq!(fraction.numer, parts(0, 0));
        assert_eq!(fraction.denom, parts(0, 0));
    }
}

#[test]
fn smallest_subnormal_has_a_doubled_fraction() {
    let fraction = FeltFraction::from_double_bits(1).unwrap();
    assert_eq!(fraction.numer, parts(2, 0));
    assert_eq!(fraction.denom, parts(0, 0));
}

#[test]
fn double_comes_back_from_its_fraction() {
    for text in ["0.5", "0.1", "1.5", "3.141592653589793", "123456789.125", "1.0e20", "6.02e23"] {
        let value: f64 = text.parse().unwrap();
        let fraction = read(text).unwrap();
        assert_eq!(fraction.numer.high, Felt::ZERO);
        assert_eq!(fraction.denom.high, Felt::ZERO);
        let numerator: u128 = fraction.numer.low.try_into().unwrap();
        let denominator: u128 = fraction.denom.low.try_into().unwrap();
        assert_eq!(numerator as f64 / denominator as f64, value);
    }
}

#[test]
fn negative_double_comes_back_from_its_residue() {
    for text in ["-0.5", "-0.1", "-2.0", "-1234.5678", "-1.0e20"] {
        let value: f64 = text.parse().unwrap();
        let fraction = read(text).unwrap();
        let residue: u128 = fraction.numer.low.try_into().unwrap();
        let denominator: u128 = fraction.denom.low.try_into().unwrap();
        assert_eq!(-(residue.wrapping_neg() as f64) / denominator as f64, value);
    }
}

#[test]
fn letters_are_no_literal() {
    assert_eq!(read("abc"), Err(ParseError::InvalidLiteral));
    assert_eq!(read(""), Err(ParseError::InvalidLiteral));
    assert_eq!(read(" 5"), Err(ParseError::InvalidLiteral));
    assert_eq!(read("+5"), Err(ParseError::InvalidLiteral));
    assert_eq!(read("--5"), Err(ParseError::InvalidLiteral));
    assert_eq!(read("0x"), Err(ParseError::InvalidLiteral));
    assert_eq!(read("1e5"), Err(ParseError::InvalidLiteral));
}

#[test]
fn text_with_a_point_that_is_no_number_is_refused() {
    assert_eq!(read("."), Err(ParseError::InvalidLiteral));
    assert_eq!(read("1.2.3"), Err(ParseError::InvalidLiteral));
    assert_eq!(read("abc.def"), Err(ParseError::InvalidLiteral));
    assert_eq!(FeltFraction::parse("0.5", None), Err(ParseError::InvalidLiteral));
}

#[test]
fn bits_are_ignored_without_a_point() {
    let half = Some(0.5f64.to_bits());
    assert_eq!(FeltFraction::parse("7", half), read("7"));
    assert_eq!(FeltFraction::parse("7/8", half), read("7/8"));
    assert_eq!(FeltFraction::parse("x", half), Err(ParseError::InvalidLiteral));
}

#[test]
fn overflowing_decimal_is_not_finite() {
    assert_eq!(read("1.0e999"), Err(ParseError::NonFinite));
    assert_eq!(read("-1.0e999"), Err(ParseError::NonFinite));
}

#[test]
fn infinities_and_nans_have_no_fraction() {
    for value in [f64::INFINITY, f64::NEG_INFINITY, f64::NAN, -f64::NAN] {
        assert_eq!(FeltFraction::from_double_bits(value.to_bits()), Err(ParseError::NonFinite));
        assert_eq!(FeltFraction::parse("1.0", Some(value.to_bits())), Err(ParseError::NonFinite));
    }
    assert!(FeltFraction::from_double_bits(f64::MAX.to_bits()).is_ok());
    assert!(FeltFraction::from_double_bits(f64::MIN_POSITIVE.to_bits()).is_ok());
}

#[test]
fn names_of_infinity_hold_no_point() {
    // Without a point or a slash a text is an integer literal, whatever a
    // float parser makes of it.
    assert_eq!(read("inf"), Err(ParseError::InvalidLiteral));
    assert_eq!(read("NaN"), Err(ParseError::InvalidLiteral));
    assert_eq!(read("-infinity"), Err(ParseError::InvalidLiteral));
}

#[test]
fn decimal_digits_that_reach_two_to_256_are_refused() {
    assert_eq!(read(TWO_TO_256), Err(ParseError::InvalidLiteral));
    for last in ["7", "8", "9"] {
        let text = format!("{}{}", &TWO_TO_256[..77], last);
        assert_eq!(read(&text), Err(ParseError::InvalidLiteral));
    }
    assert_eq!(read(&format!("-{}", TWO_TO_256)), Err(ParseError::InvalidLiteral));
    assert_eq!(read(&format!("000{}", TWO_TO_256)), Err(ParseError::InvalidLiteral));
    assert_eq!(read(&format!("-0{}", TWO_TO_256)), Err(ParseError::InvalidLiteral));
    assert_eq!(read(&format!("{}5", TWO_TO_256)), Err(ParseError::InvalidLiteral));
    assert_eq!(read(&format!("{}x", TWO_TO_256)), Err(ParseError::InvalidLiteral));
    assert_eq!(read(&format!("1/{}", TWO_TO_256)), Err(ParseError::InvalidLiteral));
    assert_eq!(read(&format!("{}/1", TWO_TO_256)), Err(ParseError::InvalidLiteral));
    assert_eq!(FeltParts::parse(TWO_TO_256), Err(ParseError::InvalidLiteral));
}

#[test]
fn decimal_digits_beyond_two_to_256_are_refused() {
    let above = format!("{}40", &TWO_TO_256[..76]);
    assert_eq!(read(&above), Err(ParseError::InvalidLiteral));
    assert_eq!(read(&format!("{}0", TWO_TO_256)), Err(ParseError::InvalidLiteral));
}

#[test]
fn decimal_digits_just_below_two_to_256_are_reduced() {
    // 2^256 - 1, taken modulo the prime.
    let below = format!("{}5", &TWO_TO_256[..77]);
    let all_ones = (BigUint::from(1u32) << 256u32) - BigUint::from(1u32);
    let fraction = read(&below).unwrap();
    assert_eq!(fraction.numer, FeltParts::from_biguint(all_ones % prime()));
    assert_eq!(
        fraction.numer,
        parts(340282366920938463463374607431768211424, 10633823966279317261796329637309054975)
    );
}

#[test]
fn parts_parse_one_literal() {
    assert_eq!(FeltParts::parse("12"), Ok(parts(12, 0)));
    assert_eq!(FeltParts::parse("0x100000000000000000000000000000000"), Ok(parts(0, 1)));
    assert_eq!(FeltParts::parse("1/2"), Err(ParseError::InvalidLiteral));
    assert_eq!(FeltParts::parse("0.5"), Err(ParseError::InvalidLiteral));
}
