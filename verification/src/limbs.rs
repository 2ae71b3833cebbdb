//! The arithmetic of splitting a natural number into 128-bit limbs.

use crate::bigint::{
    biguint_add, biguint_and, biguint_from_u128, biguint_shl, biguint_sub, biguint_value, bit_and,
};
use crate::felt::felt_prime;
use num_bigint::BigUint;
use vstd::arithmetic::div_mod::{lemma_mod_bound, lemma_mod_breakdown, lemma_small_mod};
use vstd::arithmetic::power::{lemma_pow_adds, pow};
use vstd::arithmetic::power2::{
    lemma2_to64, lemma2_to64_rest, lemma_pow2_adds, lemma_pow2_pos, lemma_pow2_strictly_increases,
    lemma_pow2_unfold, pow2,
};
use vstd::prelude::*;

verus! {

/// The number of bits in a limb.
pub const LIMB_BITS: u32 = 128;

/// The mask that keeps the lowest 128 bits: `2^128 - 1`.
pub open spec fn limb_mask() -> nat {
    (pow2(128) - 1) as nat
}

/// Bits 0 to 127 of `v`.
pub open spec fn low_limb(v: nat) -> nat {
    v % pow2(128)
}

/// Bits 128 to 255 of `v`.
pub open spec fn high_limb(v: nat) -> nat {
    (v / pow2(128)) % pow2(128)
}

/// The negation of `n` in 128-bit two's complement: `!n + 1`, all within
/// 128 bits.
pub open spec fn negate_128(n: nat) -> nat {
    ((pow2(128) - n % pow2(128)) % (pow2(128) as int)) as nat
}

/// The mask of a limb, `2^128 - 1`, as a big integer.
pub fn mask_biguint() -> (mask: BigUint)
    ensures
        biguint_value(mask) == limb_mask(),
{
    let top = biguint_shl(biguint_from_u128(1), LIMB_BITS);
    proof {
        lemma_pow2_pos(128);
    }
    biguint_sub(top, biguint_from_u128(1))
}

/// Negates a big integer in 128-bit two's complement: the lowest 128 bits
/// are flipped, one is added, and what exceeds 128 bits is dropped.
pub fn negate_biguint(n: BigUint) -> (r: BigUint)
    ensures
        biguint_value(r) == negate_128(biguint_value(n)),
{
    let ghost v = biguint_value(n);
    let mask = mask_biguint();
    let low = biguint_and(&n, &mask);
    proof {
        lemma_pow2_pos(128);
        lemma_mask_is_mod(v, 128);
        lemma_mod_bound(v as int, pow2(128) as int);
    }
    let flipped = biguint_sub(mask, low);
    let raised = biguint_add(flipped, biguint_from_u128(1));
    let mask = mask_biguint();
    proof {
        lemma_mask_is_mod(biguint_value(raised), 128);
    }
    biguint_and(&raised, &mask)
}

/// Masking with `2^k - 1` keeps the remainder modulo `2^k`.
pub proof fn lemma_mask_is_mod(v: nat, k: nat)
    ensures
        bit_and(v, (pow2(k) - 1) as nat) == v % pow2(k),
    decreases k,
{
    lemma_pow2_pos(k);
    let mask = (pow2(k) - 1) as nat;
    if v == 0 {
        lemma_small_mod(0, pow2(k));
    } else if k == 0 {
        lemma_bit_and_zero(v);
        assert(pow2(0) == 1) by {
            lemma2_to64();
        }
    } else {
        let half = pow2((k - 1) as nat);
        lemma_pow2_pos((k - 1) as nat);
        lemma_pow2_unfold(k);
        assert(pow2(k) == 2 * half);
        assert(mask / 2 == (half - 1) as nat);
        assert(mask % 2 == 1);
        lemma_mask_is_mod(v / 2, (k - 1) as nat);
        assert(bit_and(v, mask) == 2 * ((v / 2) % half) + v % 2);
        lemma_mod_breakdown(v as int, 2, half as int);
        assert(pow2(k) == 2 * half);
        assert(v % (2 * half) == 2 * ((v / 2) % half) + v % 2);
    }
}

/// A number below `2^128` is its own remainder modulo the field's prime.
pub proof fn lemma_limb_below_prime(v: nat)
    requires
        v < pow2(128),
    ensures
        v < felt_prime(),
        v % felt_prime() == v,
{
    lemma_pow2_strictly_increases(128, 251);
    lemma_pow2_pos(192);
    lemma_small_mod(v, felt_prime());
}

/// The field's prime has 76 decimal digits.
pub proof fn lemma_prime_below_ten_to_77()
    ensures
        felt_prime() < pow(10, 77),
{
    lemma2_to64();
    lemma2_to64_rest();
    lemma_pow2_adds(64, 64);
    lemma_pow2_adds(128, 64);
    lemma_pow2_adds(192, 59);
    assert(pow2(59) == 0x800_0000_0000_0000);
    assert(pow2(128) == 0x1_0000_0000_0000_0000_0000_0000_0000_0000);
    assert(pow2(192) == 0x1_0000_0000_0000_0000_0000_0000_0000_0000_0000_0000_0000_0000);
    assert(pow2(251)
        == 0x800_0000_0000_0000_0000_0000_0000_0000_0000_0000_0000_0000_0000_0000_0000_0000);
    assert(pow(10, 11) == 100_000_000_000) by {
        reveal_with_fuel(pow, 12);
    }
    lemma_pow_adds(10, 11, 11);
    assert(pow(10, 22) == 10_000_000_000_000_000_000_000);
    lemma_pow_adds(10, 22, 22);
    assert(pow(10, 44) == 100_000_000_000_000_000_000_000_000_000_000_000_000_000_000);
    lemma_pow_adds(10, 44, 22);
    assert(pow(10, 66)
        == 1_000_000_000_000_000_000_000_000_000_000_000_000_000_000_000_000_000_000_000_000_000_000);
    lemma_pow_adds(10, 66, 11);
}

/// Nothing is common to a number and zero.
pub proof fn lemma_bit_and_zero(v: nat)
    ensures
        bit_and(v, 0) == 0,
    decreases v,
{
    if v != 0 {
        lemma_bit_and_zero(v / 2);
    }
}

} // verus!
