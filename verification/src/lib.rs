//! Fractions of field elements, parsed from text.
//!
//! A fraction holds a numerator and a denominator of up to 256 bits each.
//! Either is stored as two elements of the Stark field, one for its low and
//! one for its high 128 bits, so that neither ever exceeds the field's prime.
//!
//! - [`parts`] splits a big integer into the two limbs.
//! - [`fraction`] parses a ratio `a/b`, a decimal number or an integer into
//!   a fraction, and holds the few operations on fractions.
//! - [`double`] takes the bits of an IEEE-754 double apart, exactly.
//! - [`order`] defines equality and order, which go by the limbs.
//! - [`limbs`] and [`text`] hold the arithmetic and the notation that the
//!   contracts are stated in.
//! - [`bigint`] and [`felt`] state what is taken on trust of the two
//!   outside crates that do the arithmetic on big integers and on field
//!   elements.
//!
//! Floating-point numbers are not handled here: a caller reads a decimal
//! text as a double and hands over its 64 bits.

pub mod bigint;
pub mod double;
pub mod error;
pub mod felt;
pub mod fraction;
pub mod limbs;
pub mod order;
pub mod parts;
pub mod text;
