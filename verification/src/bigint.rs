//! Arbitrary-precision unsigned integers, as `num_bigint` provides them.
//!
//! Verus does not look inside a `BigUint`. The number it holds is named by
//! [`biguint_value`], and every function here states, without proof, what the
//! operation of `num_bigint` that it calls does to that number.

use num_bigint::BigUint;
use vstd::arithmetic::power2::pow2;
use vstd::prelude::*;

verus! {

#[verifier::external_type_specification]
#[verifier::external_body]
pub struct ExBigUint(BigUint);

/// The natural number that a `BigUint` holds.
pub uninterp spec fn biguint_value(b: BigUint) -> nat;

/// The bitwise conjunction of two natural numbers: bit `i` of the result is
/// set exactly where bit `i` is set in both `a` and `b`.
pub open spec fn bit_and(a: nat, b: nat) -> nat
    decreases a,
{
    if a == 0 {
        0
    } else {
        2 * bit_and(a / 2, b / 2) + (if a % 2 == 1 && b % 2 == 1 {
            1nat
        } else {
            0nat
        })
    }
}

/// `BigUint::from` on a `u128`: the result holds the same number.
#[verifier::external_body]
pub(crate) fn biguint_from_u128(x: u128) -> (r: BigUint)
    ensures
        biguint_value(r) == x,
{
    BigUint::from(x)
}

/// `BigUint << u32`: the number is multiplied by `2^n`; no bit is lost.
#[verifier::external_body]
pub(crate) fn biguint_shl(a: BigUint, n: u32) -> (r: BigUint)
    ensures
        biguint_value(r) == biguint_value(a) * pow2(n as nat),
{
    a << n
}

/// `&BigUint >> u32`: the number is divided by `2^n`, rounding down.
#[verifier::external_body]
pub(crate) fn biguint_shr(a: &BigUint, n: u32) -> (r: BigUint)
    ensures
        biguint_value(r) == biguint_value(*a) / pow2(n as nat),
{
    a >> n
}

/// `&BigUint & &BigUint`: the bitwise conjunction of the two numbers.
#[verifier::external_body]
pub(crate) fn biguint_and(a: &BigUint, b: &BigUint) -> (r: BigUint)
    ensures
        biguint_value(r) == bit_and(biguint_value(*a), biguint_value(*b)),
{
    a & b
}

/// `BigUint + BigUint`: the sum, which cannot overflow.
#[verifier::external_body]
pub(crate) fn biguint_add(a: BigUint, b: BigUint) -> (r: BigUint)
    ensures
        biguint_value(r) == biguint_value(a) + biguint_value(b),
{
    a + b
}

/// `BigUint - BigUint`: the difference. The subtraction of `num_bigint`
/// panics where the result would be negative, so that case is left out.
#[verifier::external_body]
pub(crate) fn biguint_sub(a: BigUint, b: BigUint) -> (r: BigUint)
    requires
        biguint_value(b) <= biguint_value(a),
    ensures
        biguint_value(r) == biguint_value(a) - biguint_value(b),
{
    a - b
}

} // verus!
