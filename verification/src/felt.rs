//! Elements of the Stark field, as `starknet_types_core` provides them.
//!
//! A `Felt` is opaque to Verus. The canonical representative that it holds,
//! a number below the field's prime, is named by [`felt_value`]; the functions
//! here state, without proof, what the operations of the outside crate do to
//! that number.

use crate::bigint::biguint_value;
use crate::text::{decimal_text, decimal_value, is_decimal, reaches_limit};
use num_bigint::BigUint;
use starknet_types_core::felt::{Felt, FromStrError};
use std::str::FromStr;
use vstd::arithmetic::power2::pow2;
use vstd::prelude::*;

verus! {

#[verifier::external_type_specification]
#[verifier::external_body]
pub struct ExFelt(Felt);

/// The representative of a field element: the one natural number below the
/// prime that stands for it.
pub uninterp spec fn felt_value(f: Felt) -> nat;

#[verifier::external_type_specification]
#[verifier::external_body]
pub struct ExFromStrError(FromStrError);

/// What `Felt::from_str` makes of a text: the representative of the element
/// that it returns, or `None` where it returns an error.
pub uninterp spec fn felt_literal(text: Seq<char>) -> Option<nat>;

/// The prime of the Stark field, `2^251 + 17 * 2^192 + 1`.
pub open spec fn felt_prime() -> nat {
    pow2(251) + 17 * pow2(192) + 1
}

/// `Felt::ZERO`: the element whose representative is 0.
#[verifier::external_body]
pub(crate) fn felt_zero() -> (r: Felt)
    ensures
        felt_value(r) == 0,
{
    Felt::ZERO
}

/// `Felt::ONE`: the element whose representative is 1.
#[verifier::external_body]
pub(crate) fn felt_one() -> (r: Felt)
    ensures
        felt_value(r) == 1,
{
    Felt::ONE
}

/// `Felt::from` on a `BigUint`: the number is reduced modulo the prime.
#[verifier::external_body]
pub(crate) fn felt_from_biguint(b: BigUint) -> (r: Felt)
    ensures
        felt_value(r) == biguint_value(b) % felt_prime(),
{
    Felt::from(b)
}

/// `Felt::to_biguint`: the representative, as a `BigUint`.
#[verifier::external_body]
pub(crate) fn felt_to_biguint(f: &Felt) -> (r: BigUint)
    ensures
        biguint_value(r) == felt_value(*f),
{
    f.to_biguint()
}

/// The representative of the element that a parse gave, if it gave one.
pub open spec fn representative(r: Result<Felt, FromStrError>) -> Option<nat> {
    match r {
        Ok(f) => Some(felt_value(f)),
        Err(_) => None,
    }
}

/// `Felt::from_str`: reads a decimal literal, with or without a minus sign,
/// or a hexadecimal one after `0x`. What it returns is named by
/// [`felt_literal`]. Only this much is stated of it: a text of decimal
/// digits that denotes a number below the prime gives the element with that
/// representative.
///
/// The outside parser multiplies by ten with an overflow test and then adds
/// the next digit without one, under a debug assertion. The assertion fails
/// exactly where the digits read so far denote `2^256` to `2^256 + 3`, so
/// those texts are left out.
#[verifier::external_body]
pub(crate) fn felt_from_str(text: &str) -> (r: Result<Felt, FromStrError>)
    requires
        !reaches_limit(text@),
    ensures
        representative(r) == felt_literal(text@),
        is_decimal(text@) && decimal_value(text@) < felt_prime() ==> representative(r) == Some(
            decimal_value(text@),
        ),
{
    Felt::from_str(text)
}

/// The `Display` of a `Felt`: the decimal notation of its representative.
#[verifier::external_body]
pub(crate) fn felt_to_string(f: &Felt) -> (r: String)
    ensures
        r@ == decimal_text(felt_value(*f)),
{
    format!("{}", f)
}

/// `Felt == Felt`: two elements are equal where their representatives are.
#[verifier::external_body]
pub(crate) fn felt_eq(a: &Felt, b: &Felt) -> (r: bool)
    ensures
        r == (felt_value(*a) == felt_value(*b)),
{
    a == b
}

/// `Felt < Felt`: elements are ordered as their representatives are.
#[verifier::external_body]
pub(crate) fn felt_lt(a: &Felt, b: &Felt) -> (r: bool)
    ensures
        r == (felt_value(*a) < felt_value(*b)),
{
    a < b
}

} // verus!
