//! A number of up to 256 bits, held as two field elements of 128 bits each.

use crate::bigint::{biguint_and, biguint_shr, biguint_value};
use crate::error::ParseError;
use crate::felt::{
    felt_from_biguint, felt_from_str, felt_literal, felt_one, felt_prime, felt_to_biguint,
    felt_value, felt_zero,
};
use crate::text::{
    chars_of, check_limit, decimal_value, is_decimal, lemma_limit_is_large, reaches_limit,
};
use crate::limbs::{
    high_limb, lemma_limb_below_prime, lemma_mask_is_mod, lemma_prime_below_ten_to_77, low_limb,
    mask_biguint, LIMB_BITS,
};
use num_bigint::BigUint;
use starknet_types_core::felt::Felt;
use vstd::arithmetic::div_mod::{
    lemma_basic_div, lemma_fundamental_div_mod_converse_div, lemma_fundamental_div_mod_converse_mod,
    lemma_mod_bound, lemma_mod_breakdown, lemma_small_mod,
};
use vstd::arithmetic::power2::{
    lemma2_to64, lemma_pow2_adds, lemma_pow2_pos, lemma_pow2_strictly_increases, pow2,
};
use vstd::prelude::*;

verus! {

/// The two limbs of a number, as natural numbers.
pub struct Limbs {
    pub low: nat,
    pub high: nat,
}

/// The limbs that splitting `v` gives: bits 0 to 127 and bits 128 to 255.
/// Bits from 256 upwards are dropped.
pub open spec fn split(v: nat) -> Limbs {
    Limbs { low: low_limb(v), high: high_limb(v) }
}

impl Limbs {
    /// Both limbs fit in 128 bits.
    pub open spec fn in_range(self) -> bool {
        self.low < pow2(128) && self.high < pow2(128)
    }

    /// The number that the two limbs stand for.
    pub open spec fn value(self) -> nat {
        self.low + self.high * pow2(128)
    }
}

/// Splitting keeps the lowest 256 bits and nothing else: a number and its
/// remainder modulo `2^256` have the same limbs, each limb fits in 128 bits,
/// and together the limbs stand for that remainder.
pub proof fn lemma_split_truncates(v: nat)
    ensures
        split(v) == split(v % pow2(256)),
        split(v).in_range(),
        split(v).value() == v % pow2(256),
{
    let a = pow2(128) as int;
    lemma_pow2_pos(128);
    lemma_pow2_adds(128, 128);
    assert(pow2(256) == a * a);
    let low = v as int % a;
    let high = (v as int / a) % a;
    let w = v as int % (a * a);
    lemma_mod_bound(v as int, a);
    lemma_mod_bound(v as int / a, a);
    lemma_mod_breakdown(v as int, a, a);
    assert(w == a * high + low);
    assert(a * high == high * a) by (nonlinear_arith);
    lemma_fundamental_div_mod_converse_mod(w, a, high, low);
    lemma_fundamental_div_mod_converse_div(w, a, high, low);
    lemma_small_mod(high as nat, a as nat);
}

/// The limbs tell the lowest 256 bits of a number, and nothing more: two
/// numbers have the same limbs exactly where they agree modulo `2^256`.
pub proof fn lemma_split_agrees(a: nat, b: nat)
    ensures
        split(a) == split(b) <==> a % pow2(256) == b % pow2(256),
{
    lemma_split_truncates(a);
    lemma_split_truncates(b);
}

/// A number that fits in 128 bits is its own low limb, and its high limb
/// is 0.
pub proof fn lemma_split_small(v: nat)
    requires
        v < pow2(128),
    ensures
        split(v) == (Limbs { low: v, high: 0 }),
{
    lemma_small_mod(v, pow2(128));
    lemma_basic_div(v as int, pow2(128) as int);
    lemma_small_mod(0, pow2(128));
}

/// The representative of the field element that a literal denotes: a
/// decimal number, with or without a minus sign, or a hexadecimal one after
/// `0x`. A decimal literal whose digits reach `2^256` denotes nothing.
pub open spec fn literal_value(text: Seq<char>) -> Option<nat> {
    if reaches_limit(text) {
        None
    } else {
        felt_literal(text)
    }
}

/// The limbs that a literal parses to.
pub open spec fn parsed_parts(text: Seq<char>) -> Result<Limbs, ParseError> {
    match literal_value(text) {
        Some(v) => Ok(split(v)),
        None => Err(ParseError::InvalidLiteral),
    }
}

/// The limbs of parts that were parsed, or the error that came instead.
pub open spec fn limbs_of(r: Result<FeltParts, ParseError>) -> Result<Limbs, ParseError> {
    match r {
        Ok(parts) => Ok(parts@),
        Err(e) => Err(e),
    }
}

/// The low and the high half of an unsigned integer, a field element each.
#[derive(Debug, Clone, Copy, Eq, Ord)]
pub struct FeltParts {
    pub low: Felt,
    pub high: Felt,
}

impl View for FeltParts {
    type V = Limbs;

    open spec fn view(&self) -> Limbs {
        Limbs { low: felt_value(self.low), high: felt_value(self.high) }
    }
}

impl FeltParts {
    /// The parts of 0.
    pub fn zero() -> (r: Self)
        ensures
            r@ == (Limbs { low: 0, high: 0 }),
            r@.in_range(),
    {
        proof {
            lemma_pow2_pos(128);
        }
        FeltParts { low: felt_zero(), high: felt_zero() }
    }

    /// The parts of 1.
    pub fn one() -> (r: Self)
        ensures
            r@ == (Limbs { low: 1, high: 0 }),
            r@.in_range(),
    {
        proof {
            lemma2_to64();
            lemma_pow2_strictly_increases(0, 128);
        }
        FeltParts { low: felt_one(), high: felt_zero() }
    }

    /// Splits an unsigned integer of any size into its two lowest 128-bit
    /// limbs. What lies above bit 255 is dropped.
    pub fn from_biguint(big_uint: BigUint) -> (r: Self)
        ensures
            r@ == split(biguint_value(big_uint)),
            r@.in_range(),
    {
        let ghost v = biguint_value(big_uint);
        let mask = mask_biguint();
        let low_bits = biguint_and(&biguint_shr(&big_uint, 0), &mask);
        let high_bits = biguint_and(&biguint_shr(&big_uint, LIMB_BITS), &mask);
        proof {
            lemma2_to64();
            lemma_pow2_pos(128);
            assert(v / pow2(0) == v);
            lemma_mask_is_mod(v, 128);
            lemma_mask_is_mod(v / pow2(128), 128);
            lemma_limb_below_prime(low_limb(v));
            lemma_limb_below_prime(high_limb(v));
        }
        let low = felt_from_biguint(low_bits);
        let high = felt_from_biguint(high_bits);
        FeltParts { low, high }
    }

    /// Parses a literal of a field element and splits its representative.
    /// A text of decimal digits that denotes a number below the prime is
    /// always accepted, and gives the limbs of that number.
    pub fn parse(text: &str) -> (r: Result<Self, ParseError>)
        ensures
            limbs_of(r) == parsed_parts(text@),
            r matches Ok(parts) ==> parts@.in_range(),
            is_decimal(text@) && decimal_value(text@) < felt_prime() ==> limbs_of(r) == Ok::<
                Limbs,
                ParseError,
            >(split(decimal_value(text@))),
    {
        let chars = chars_of(text);
        if check_limit(&chars) {
            proof {
                if is_decimal(text@) {
                    lemma_limit_is_large(text@);
                    lemma_prime_below_ten_to_77();
                }
            }
            return Err(ParseError::InvalidLiteral);
        }
        match felt_from_str(text) {
            Ok(felt) => Ok(FeltParts::from_felt(felt)),
            Err(_) => Err(ParseError::InvalidLiteral),
        }
    }

    /// Splits the representative of a field element into limbs.
    pub fn from_felt(felt: Felt) -> (r: Self)
        ensures
            r@ == split(felt_value(felt)),
            r@.in_range(),
    {
        let big_uint = felt_to_biguint(&felt);
        FeltParts::from_biguint(big_uint)
    }
}

} // verus!
