//! The exact decomposition of an IEEE-754 double, given by its 64 bits.
//!
//! A double is one sign bit, eleven exponent bits and fifty-two fraction
//! bits. Every finite double is `sign * mantissa * 2^exponent` for the
//! integers that [`integer_decode`] returns; nothing is rounded.

use crate::limbs::negate_128;
use vstd::arithmetic::power2::{lemma_pow2_adds, pow2};
use vstd::prelude::*;

verus! {

/// `2^52`: the weight of the implicit leading bit of a normal double.
pub const HIDDEN_BIT: u64 = 0x10_0000_0000_0000;

/// The exponent field that marks infinities and NaNs.
pub const EXPONENT_SPECIAL: u64 = 0x7ff;

/// The bias of the exponent field, 1023, plus the 52 fraction bits.
pub const EXPONENT_OFFSET: i16 = 1075;

/// Bit 63: 0 for a positive double, 1 for a negative one.
pub open spec fn sign_field(bits: u64) -> int {
    bits as int / 0x8000_0000_0000_0000
}

/// Bits 52 to 62, the biased exponent.
pub open spec fn exponent_field(bits: u64) -> int {
    (bits as int / 0x10_0000_0000_0000) % 0x800
}

/// Bits 0 to 51, the fraction.
pub open spec fn fraction_field(bits: u64) -> int {
    bits as int % 0x10_0000_0000_0000
}

/// A double is finite unless all its exponent bits are set.
pub open spec fn is_finite_bits(bits: u64) -> bool {
    exponent_field(bits) != 0x7ff
}

/// The integer mantissa: the fraction doubled for a subnormal, the fraction
/// with the leading bit restored otherwise.
pub open spec fn mantissa_of(bits: u64) -> int {
    if exponent_field(bits) == 0 {
        2 * fraction_field(bits)
    } else {
        fraction_field(bits) + 0x10_0000_0000_0000
    }
}

/// The power of two by which the mantissa is scaled.
pub open spec fn exponent_of(bits: u64) -> int {
    exponent_field(bits) - 1075
}

/// 1 for a cleared sign bit, -1 for a set one.
pub open spec fn sign_of(bits: u64) -> int {
    if sign_field(bits) == 0 {
        1
    } else {
        -1
    }
}

/// The numerator of the absolute value: the mantissa, shifted up by the
/// exponent where that is not negative. No bit is dropped.
pub open spec fn magnitude(bits: u64) -> nat {
    if exponent_of(bits) >= 0 {
        (mantissa_of(bits) * pow2(exponent_of(bits) as nat)) as nat
    } else {
        mantissa_of(bits) as nat
    }
}

/// The numerator of a finite double: its magnitude, negated in 128-bit
/// two's complement where the double is negative.
pub open spec fn double_numerator(bits: u64) -> nat {
    if sign_of(bits) < 0 {
        negate_128(magnitude(bits))
    } else {
        magnitude(bits)
    }
}

/// The denominator of a finite double: a power of two, 1 where the exponent
/// is not negative.
pub open spec fn double_denominator(bits: u64) -> nat {
    if exponent_of(bits) < 0 {
        pow2((-exponent_of(bits)) as nat)
    } else {
        1
    }
}

/// The absolute value of a finite double, multiplied by `2^1075` to make
/// it an integer. This is the definition of the format: a subnormal double
/// is `fraction * 2^-1074`, any other `(2^52 + fraction) * 2^(field - 1075)`
/// for its exponent field.
pub open spec fn scaled_magnitude(bits: u64) -> nat {
    if exponent_field(bits) == 0 {
        (2 * fraction_field(bits)) as nat
    } else {
        ((0x10_0000_0000_0000 + fraction_field(bits)) * pow2(exponent_field(bits) as nat)) as nat
    }
}

/// The bits of the double that has the given mantissa, exponent and sign.
pub open spec fn recomposed(mantissa: int, exponent: int, sign: int) -> int {
    let field = exponent + 1075;
    let fraction = if field == 0 {
        mantissa / 2
    } else {
        mantissa - 0x10_0000_0000_0000
    };
    let top = if sign < 0 {
        0x8000_0000_0000_0000
    } else {
        0int
    };
    top + field * 0x10_0000_0000_0000 + fraction
}

/// Nothing is lost in taking a double apart: mantissa, exponent and sign
/// give its bits back.
pub proof fn lemma_decode_recomposes(bits: u64)
    ensures
        recomposed(mantissa_of(bits), exponent_of(bits), sign_of(bits)) == bits,
{
}

/// The decomposition is exact: the magnitude over the denominator is the
/// absolute value of the double, with nothing rounded.
pub proof fn lemma_decomposition_exact(bits: u64)
    requires
        is_finite_bits(bits),
    ensures
        magnitude(bits) * pow2(1075) == scaled_magnitude(bits) * double_denominator(bits),
{
    let m = mantissa_of(bits);
    let field = exponent_field(bits) as nat;
    if field == 0 {
    } else if field < 1075 {
        let down = (1075 - field) as nat;
        lemma_pow2_adds(field, down);
        assert(m * pow2(field) >= 0) by (nonlinear_arith)
            requires
                m >= 0,
        ;
        assert(m * (pow2(field) * pow2(down)) == (m * pow2(field)) * pow2(down))
            by (nonlinear_arith);
    } else {
        let up = (field - 1075) as nat;
        lemma_pow2_adds(up, 1075);
        assert(m * pow2(up) >= 0) by (nonlinear_arith)
            requires
                m >= 0,
        ;
        assert(m * pow2(field) >= 0) by (nonlinear_arith)
            requires
                m >= 0,
        ;
        assert((m * pow2(up)) * pow2(1075) == m * (pow2(up) * pow2(1075))) by (nonlinear_arith);
    }
}

/// Whether all the exponent bits are set, which marks an infinity or a NaN.
pub fn is_finite(bits: u64) -> (r: bool)
    ensures
        r == is_finite_bits(bits),
{
    assert((bits >> 52) & 0x7ff == (bits / 0x10_0000_0000_0000) % 0x800) by (bit_vector);
    (bits >> 52) & EXPONENT_SPECIAL != EXPONENT_SPECIAL
}

/// Takes the bits of a double apart into mantissa, exponent and sign, so
/// that the double is `sign * mantissa * 2^exponent`.
pub fn integer_decode(bits: u64) -> (r: (u64, i16, i8))
    ensures
        r.0 == mantissa_of(bits),
        r.1 == exponent_of(bits),
        r.2 == sign_of(bits),
        r.0 < 0x20_0000_0000_0000,
        -1075 <= r.1 <= 972,
{
    assert(bits >> 63 == bits / 0x8000_0000_0000_0000) by (bit_vector);
    assert((bits >> 52) & 0x7ff == (bits / 0x10_0000_0000_0000) % 0x800) by (bit_vector);
    assert(bits & 0xf_ffff_ffff_ffff == bits % 0x10_0000_0000_0000) by (bit_vector);
    let sign: i8 = if bits >> 63 == 0 {
        1
    } else {
        -1
    };
    let field: u64 = (bits >> 52) & EXPONENT_SPECIAL;
    let fraction: u64 = bits & 0xf_ffff_ffff_ffff;
    assert(fraction < 0x10_0000_0000_0000 ==> fraction << 1 == 2 * fraction) by (bit_vector);
    assert(fraction < 0x10_0000_0000_0000 ==> fraction | 0x10_0000_0000_0000 == fraction
        + 0x10_0000_0000_0000) by (bit_vector);
    let mantissa: u64 = if field == 0 {
        fraction << 1
    } else {
        fraction | HIDDEN_BIT
    };
    let exponent: i16 = field as i16 - EXPONENT_OFFSET;
    (mantissa, exponent, sign)
}

} // verus!
