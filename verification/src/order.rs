//! Equality and order of parts and fractions.
//!
//! Both go by the limbs, not by the number that a fraction stands for: the
//! low limb is compared before the high one, the numerator before the
//! denominator, and each limb by its representative.

use crate::felt::{felt_eq, felt_lt};
use crate::fraction::{FeltFraction, Ratio};
use crate::parts::{FeltParts, Limbs};
use std::cmp::Ordering;
use vstd::prelude::*;
use vstd::std_specs::cmp::{PartialEqSpecImpl, PartialOrdSpecImpl};

verus! {

/// How two natural numbers compare.
pub open spec fn order_of(a: nat, b: nat) -> Ordering {
    if a < b {
        Ordering::Less
    } else if a == b {
        Ordering::Equal
    } else {
        Ordering::Greater
    }
}

/// How two pairs of limbs compare: by the low limbs, and by the high ones
/// where the low ones are equal.
pub open spec fn order_of_limbs(a: Limbs, b: Limbs) -> Ordering {
    match order_of(a.low, b.low) {
        Ordering::Equal => order_of(a.high, b.high),
        decided => decided,
    }
}

/// How two fractions compare: by the numerators, and by the denominators
/// where the numerators are equal.
pub open spec fn order_of_ratios(a: Ratio, b: Ratio) -> Ordering {
    match order_of_limbs(a.numer, b.numer) {
        Ordering::Equal => order_of_limbs(a.denom, b.denom),
        decided => decided,
    }
}

/// Two fractions compare as equal exactly where all their limbs agree.
pub proof fn lemma_order_equal(a: Ratio, b: Ratio)
    ensures
        order_of_ratios(a, b) == Ordering::Equal <==> a == b,
{
}

/// Exchanging the two sides of a comparison exchanges less and greater.
pub proof fn lemma_order_reverses(a: Ratio, b: Ratio)
    ensures
        order_of_ratios(a, b) == Ordering::Less <==> order_of_ratios(b, a) == Ordering::Greater,
        order_of_ratios(a, b) == Ordering::Equal <==> order_of_ratios(b, a) == Ordering::Equal,
{
}

/// What is less than something less than `c` is less than `c`.
pub proof fn lemma_order_transitive(a: Ratio, b: Ratio, c: Ratio)
    requires
        order_of_ratios(a, b) == Ordering::Less,
        order_of_ratios(b, c) == Ordering::Less,
    ensures
        order_of_ratios(a, c) == Ordering::Less,
{
}

impl PartialEq for FeltParts {
    fn eq(&self, other: &Self) -> (r: bool) {
        felt_eq(&self.low, &other.low) && felt_eq(&self.high, &other.high)
    }
}

impl PartialEqSpecImpl for FeltParts {
    open spec fn obeys_eq_spec() -> bool {
        true
    }

    open spec fn eq_spec(&self, other: &Self) -> bool {
        self@ == other@
    }
}

impl PartialOrd for FeltParts {
    fn partial_cmp(&self, other: &Self) -> (r: Option<Ordering>) {
        if felt_lt(&self.low, &other.low) {
            Some(Ordering::Less)
        } else if felt_lt(&other.low, &self.low) {
            Some(Ordering::Greater)
        } else if felt_lt(&self.high, &other.high) {
            Some(Ordering::Less)
        } else if felt_lt(&other.high, &self.high) {
            Some(Ordering::Greater)
        } else {
            Some(Ordering::Equal)
        }
    }
}

impl PartialOrdSpecImpl for FeltParts {
    open spec fn obeys_partial_cmp_spec() -> bool {
        true
    }

    open spec fn partial_cmp_spec(&self, other: &Self) -> Option<Ordering> {
        Some(order_of_limbs(self@, other@))
    }
}

impl PartialEq for FeltFraction {
    fn eq(&self, other: &Self) -> (r: bool) {
        self.numer == other.numer && self.denom == other.denom
    }
}

impl PartialEqSpecImpl for FeltFraction {
    open spec fn obeys_eq_spec() -> bool {
        true
    }

    open spec fn eq_spec(&self, other: &Self) -> bool {
        self@ == other@
    }
}

impl PartialOrd for FeltFraction {
    fn partial_cmp(&self, other: &Self) -> (r: Option<Ordering>) {
        match self.numer.partial_cmp(&other.numer) {
            Some(Ordering::Equal) => self.denom.partial_cmp(&other.denom),
            decided => decided,
        }
    }
}

impl PartialOrdSpecImpl for FeltFraction {
    open spec fn obeys_partial_cmp_spec() -> bool {
        true
    }

    open spec fn partial_cmp_spec(&self, other: &Self) -> Option<Ordering> {
        Some(order_of_ratios(self@, other@))
    }
}

} // verus!
