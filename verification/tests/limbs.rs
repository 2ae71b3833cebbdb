use felt_fraction::double::{integer_decode, is_finite};
use felt_fraction::limbs::{mask_biguint, negate_biguint};
use felt_fraction::parts::FeltParts;
use felt_fraction::text::{check_limit, chars_of, find_first};
use num_bigint::BigUint;
use starknet_types_core::felt::Felt;

fn parts(low: u128, high: u128) -> FeltParts {
    FeltParts { low: Felt::from(low), high: Felt::from(high) }
}

fn two_to(n: u32) -> BigUint {
    BigUint::from(1u32) << n
}

#[test]
fn split_of_small_numbers() {
    assert_eq!(FeltParts::from_biguint(BigUint::from(0u32)), parts(0, 0));
    assert_eq!(FeltParts::from_biguint(BigUint::from(1u32)), parts(1, 0));
    assert_eq!(FeltParts::from_biguint(BigUint::from(u128::MAX)), parts(u128::MAX, 0));
    assert_eq!(FeltParts::from_biguint(BigUint::from(0u32)), FeltParts::zero());
    assert_eq!(FeltParts::from_biguint(BigUint::from(1u32)), FeltParts::one());
}

#[test]
fn split_puts_bit_128_into_the_high_limb() {
    assert_eq!(FeltParts::from_biguint(two_to(128)), parts(0, 1));
    assert_eq!(FeltParts::from_biguint(two_to(255)), parts(0, 1 << 127));
    assert_eq!(
        FeltParts::from_biguint(two_to(256) - BigUint::from(1u32)),
        parts(u128::MAX, u128::MAX)
    );
    let mixed = BigUint::from(0xdead_beefu32) * two_to(128) + BigUint::from(0xcafeu32);
    assert_eq!(FeltParts::from_biguint(mixed), parts(0xcafe, 0xdead_beef));
}

#[test]
fn split_keeps_256_bits() {
    let value = (BigUint::from(7u32) << 300u32) + (BigUint::from(9u32) << 128u32)
        + BigUint::from(11u32);
    assert_eq!(FeltParts::from_biguint(value), parts(11, 9));
    assert_eq!(FeltParts::from_biguint(two_to(256)), parts(0, 0));
    assert_eq!(FeltParts::from_biguint(two_to(1000)), parts(0, 0));
}

#[test]
fn split_is_the_split_of_the_remainder() {
    let samples = [
        two_to(256) + BigUint::from(5u32),
        two_to(257) + two_to(200) + two_to(3),
        (two_to(400) - BigUint::from(1u32)) * BigUint::from(12345u32),
        BigUint::from(u128::MAX) * BigUint::from(u128::MAX) * BigUint::from(u128::MAX),
    ];
    for value in samples {
        let remainder = value.clone() % two_to(256);
        assert_eq!(FeltParts::from_biguint(value), FeltParts::from_biguint(remainder));
    }
}

#[test]
fn split_of_a_field_element() {
    assert_eq!(FeltParts::from_felt(Felt::from(77u32)), parts(77, 0));
    assert_eq!(FeltParts::from_felt(Felt::ZERO), FeltParts::zero());
    assert_eq!(FeltParts::from_felt(Felt::ONE), FeltParts::one());
    // the largest element: 2^251 + 17 * 2^192
    assert_eq!(FeltParts::from_felt(Felt::MAX), parts(0, (1 << 123) + (17 << 64)));
    let wide = Felt::from(u128::MAX) * Felt::from(3u32);
    assert_eq!(FeltParts::from_felt(wide), parts(u128::MAX - 2, 2));
}

#[test]
fn mask_is_all_ones() {
    assert_eq!(mask_biguint(), BigUint::from(u128::MAX));
}

#[test]
fn negation_wraps_at_128_bits() {
    assert_eq!(negate_biguint(BigUint::from(0u32)), BigUint::from(0u32));
    assert_eq!(negate_biguint(BigUint::from(1u32)), BigUint::from(u128::MAX));
    assert_eq!(negate_biguint(BigUint::from(u128::MAX)), BigUint::from(1u32));
    assert_eq!(negate_biguint(BigUint::from(12345u32)), BigUint::from(12345u128.wrapping_neg()));
    // only the lowest 128 bits count
    assert_eq!(negate_biguint(two_to(130) + BigUint::from(2u32)), BigUint::from(u128::MAX - 1));
    assert_eq!(negate_biguint(two_to(128)), BigUint::from(0u32));
}

#[test]
fn decode_of_normal_doubles() {
    assert_eq!(integer_decode(1.0f64.to_bits()), (1 << 52, -52, 1));
    assert_eq!(integer_decode(0.5f64.to_bits()), (1 << 52, -53, 1));
    assert_eq!(integer_decode((-2.0f64).to_bits()), (1 << 52, -51, -1));
    assert_eq!(integer_decode(1.5f64.to_bits()), (3 << 51, -52, 1));
    assert_eq!(integer_decode(0.1f64.to_bits()), (7205759403792794, -56, 1));
    assert_eq!(integer_decode(f64::MAX.to_bits()), ((1 << 53) - 1, 971, 1));
    assert_eq!(integer_decode(f64::MIN_POSITIVE.to_bits()), (1 << 52, -1074, 1));
}

#[test]
fn decode_of_subnormal_doubles() {
    assert_eq!(integer_decode(0.0f64.to_bits()), (0, -1075, 1));
    assert_eq!(integer_decode((-0.0f64).to_bits()), (0, -1075, -1));
    assert_eq!(integer_decode(1), (2, -1075, 1));
    assert_eq!(integer_decode(0x000f_ffff_ffff_ffff), ((1 << 53) - 2, -1075, 1));
}

#[test]
fn decode_of_special_doubles() {
    assert_eq!(integer_decode(f64::INFINITY.to_bits()), (1 << 52, 972, 1));
    assert_eq!(integer_decode(f64::NEG_INFINITY.to_bits()), (1 << 52, 972, -1));
    assert_eq!(integer_decode(u64::MAX), ((1 << 53) - 1, 972, -1));
}

#[test]
fn decode_gives_the_double_back() {
    for value in [1.0f64, 0.1, -7.25, 1.0e-310, 123456.789e50, f64::MAX, f64::MIN_POSITIVE] {
        let (mantissa, exponent, sign) = integer_decode(value.to_bits());
        let half = exponent as i32 / 2;
        let rest = exponent as i32 - half;
        let back = sign as f64 * mantissa as f64 * 2f64.powi(half) * 2f64.powi(rest);
        assert_eq!(back, value);
    }
}

#[test]
fn finite_means_some_exponent_bit_is_clear() {
    assert!(is_finite(0));
    assert!(is_finite(1.0f64.to_bits()));
    assert!(is_finite(f64::MAX.to_bits()));
    assert!(is_finite(f64::MIN.to_bits()));
    assert!(!is_finite(f64::INFINITY.to_bits()));
    assert!(!is_finite(f64::NEG_INFINITY.to_bits()));
    assert!(!is_finite(f64::NAN.to_bits()));
    assert!(!is_finite(0x7ff0_0000_0000_0001));
    assert!(!is_finite(u64::MAX));
}

#[test]
fn characters_are_found_by_position() {
    let chars = chars_of("a/b/c");
    assert_eq!(chars, vec!['a', '/', 'b', '/', 'c']);
    assert_eq!(find_first(&chars, '/'), 1);
    assert_eq!(find_first(&chars, 'a'), 0);
    assert_eq!(find_first(&chars, 'c'), 4);
    assert_eq!(find_first(&chars, '.'), 5);
    assert_eq!(find_first(&chars_of(""), '/'), 0);
    // positions count characters, not bytes
    assert_eq!(find_first(&chars_of("é/ü"), '/'), 1);
}

#[test]
fn limit_is_reached_by_the_digits_of_two_to_256() {
    let limit = "115792089237316195423570985008687907853269984665640564039457584007913129639936";
    assert!(check_limit(&chars_of(limit)));
    assert!(check_limit(&chars_of(&format!("-000{}123", limit))));
    assert!(check_limit(&chars_of(&limit.replace("639936", "639939"))));
    assert!(!check_limit(&chars_of(&limit.replace("639936", "639935"))));
    assert!(!check_limit(&chars_of(&limit.replace("639936", "639940"))));
    assert!(!check_limit(&chars_of(&limit[..77])));
    assert!(!check_limit(&chars_of(&format!("--{}", limit))));
    assert!(!check_limit(&chars_of(&format!("0x{}", limit))));
    assert!(!check_limit(&chars_of(&format!("1{}", limit))));
    assert!(!check_limit(&chars_of("")));
    assert!(!check_limit(&chars_of("-")));
    assert!(!check_limit(&chars_of("0")));
}
