//! Why a text was refused.

use vstd::prelude::*;

verus! {

/// The ways in which parsing a text can fail.
#[derive(Debug, Clone, Copy, PartialEq, Eq, Structural)]
pub enum ParseError {
    /// The text is not a literal of the form that it was taken for.
    InvalidLiteral,
    /// The text denotes an infinity or a NaN, which has no exact fraction.
    NonFinite,
}

} // verus!
