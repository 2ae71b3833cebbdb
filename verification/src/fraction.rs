//! Fractions whose numerator and denominator are two limbs each, and the
//! three notations that they are parsed from.

use crate::bigint::{biguint_from_u128, biguint_shl, biguint_value};
use crate::double::{
    double_denominator, double_numerator, integer_decode, is_finite, is_finite_bits, magnitude,
    mantissa_of, sign_of,
};
use crate::error::ParseError;
use crate::felt::{felt_eq, felt_prime, felt_to_string, felt_zero};
use crate::limbs::{lemma_limb_below_prime, negate_biguint};
use crate::parts::{
    lemma_split_small, lemma_split_truncates, literal_value, split, FeltParts, Limbs,
};
use crate::text::{
    chars_of, decimal_text, decimal_value, find_first, first_index, is_decimal, is_digit,
    lemma_decimal_text_value, lemma_first_index_from,
};
use vstd::arithmetic::div_mod::{lemma_basic_div, lemma_mod_self_0, lemma_small_mod};
use vstd::arithmetic::power2::{
    lemma2_to64, lemma_pow2_pos, lemma_pow2_strictly_increases, pow2,
};
use vstd::prelude::*;
use vstd::string::{StrSliceExecFns, StringExecFns};

verus! {

/// A fraction as two pairs of limbs.
pub struct Ratio {
    pub numer: Limbs,
    pub denom: Limbs,
}

impl Ratio {
    /// The fraction with numerator and denominator exchanged.
    pub open spec fn reciprocal(self) -> Ratio {
        Ratio { numer: self.denom, denom: self.numer }
    }

    /// Whether each of the four limbs fits in 128 bits.
    pub open spec fn in_range(self) -> bool {
        self.numer.in_range() && self.denom.in_range()
    }

    /// Whether both limbs of the numerator are 0. The denominator does not
    /// matter.
    pub open spec fn is_zero(self) -> bool {
        self.numer.low == 0 && self.numer.high == 0
    }
}

/// The limbs of 0.
pub open spec fn zero_limbs() -> Limbs {
    Limbs { low: 0, high: 0 }
}

/// The limbs of 1.
pub open spec fn one_limbs() -> Limbs {
    Limbs { low: 1, high: 0 }
}

/// A numerator and a denominator. The denominator may be zero, and the
/// fraction need not be in lowest terms.
#[derive(Debug, Clone, Copy, Eq, Ord)]
pub struct FeltFraction {
    pub numer: FeltParts,
    pub denom: FeltParts,
}

impl FeltFraction {
    /// The fraction with numerator and denominator exchanged.
    pub open spec fn swapped(self) -> FeltFraction {
        FeltFraction { numer: self.denom, denom: self.numer }
    }
}

impl View for FeltFraction {
    type V = Ratio;

    open spec fn view(&self) -> Ratio {
        Ratio { numer: self.numer@, denom: self.denom@ }
    }
}

/// The three notations of a fraction. Each text has exactly one.
#[derive(Debug, Clone, Copy, PartialEq, Eq, Structural)]
pub enum LiteralForm {
    /// Two literals of field elements with a `/` between them.
    Ratio,
    /// A number with a decimal point, read as a double.
    Decimal,
    /// One literal of a field element.
    Integer,
}

/// The notation of a text: a ratio where it holds a `/`, else a decimal
/// number where it holds a `.`, else an integer.
pub open spec fn form_of(text: Seq<char>) -> LiteralForm {
    if text.contains('/') {
        LiteralForm::Ratio
    } else if text.contains('.') {
        LiteralForm::Decimal
    } else {
        LiteralForm::Integer
    }
}

/// What the bits of a double parse to: the exact fraction of a finite
/// double, and an error for an infinity or a NaN.
pub open spec fn parsed_double(bits: u64) -> Result<Ratio, ParseError> {
    if is_finite_bits(bits) {
        Ok(Ratio { numer: split(double_numerator(bits)), denom: split(double_denominator(bits)) })
    } else {
        Err(ParseError::NonFinite)
    }
}

/// What the two sides of a ratio parse to.
pub open spec fn parsed_ratio(left: Seq<char>, right: Seq<char>) -> Result<Ratio, ParseError> {
    match (literal_value(left), literal_value(right)) {
        (Some(n), Some(d)) => Ok(Ratio { numer: split(n), denom: split(d) }),
        _ => Err(ParseError::InvalidLiteral),
    }
}

/// The left side of a ratio: what stands before its first `/`.
pub open spec fn ratio_left(text: Seq<char>) -> Seq<char> {
    text.take(first_index(text, '/'))
}

/// The right side of a ratio: all that follows its first `/`.
pub open spec fn ratio_right(text: Seq<char>) -> Seq<char> {
    text.skip(first_index(text, '/') + 1)
}

/// What a text parses to. `double` holds the bits of the double that the
/// text denotes, or nothing where the text is no number with a decimal
/// point; it matters for the decimal notation only.
pub open spec fn parsed(text: Seq<char>, double: Option<u64>) -> Result<Ratio, ParseError> {
    match form_of(text) {
        LiteralForm::Ratio => parsed_ratio(ratio_left(text), ratio_right(text)),
        LiteralForm::Decimal => match double {
            Some(bits) => parsed_double(bits),
            None => Err(ParseError::InvalidLiteral),
        },
        LiteralForm::Integer => match literal_value(text) {
            Some(n) => Ok(Ratio { numer: split(n), denom: one_limbs() }),
            None => Err(ParseError::InvalidLiteral),
        },
    }
}

/// The text of a fraction: the four limbs in decimal notation, as
/// `(low/high) / (low/high)`, the numerator first. It shows the limbs as
/// they are; parsing it does not give the fraction back.
pub open spec fn formatted(v: Ratio) -> Seq<char> {
    formatted_limbs(v.numer) + seq![' ', '/', ' '] + formatted_limbs(v.denom)
}

/// The text of two limbs: `(low/high)`, each in decimal notation.
pub open spec fn formatted_limbs(limbs: Limbs) -> Seq<char> {
    seq!['('] + decimal_text(limbs.low) + seq!['/'] + decimal_text(limbs.high) + seq![')']
}

/// The view of a fraction that was parsed, or the error that came instead.
pub open spec fn ratio_of(r: Result<FeltFraction, ParseError>) -> Result<Ratio, ParseError> {
    match r {
        Ok(fraction) => Ok(fraction@),
        Err(e) => Err(e),
    }
}

/// Tells which of the three notations a text has.
pub fn literal_form(text: &str) -> (r: LiteralForm)
    ensures
        r == form_of(text@),
{
    let chars = chars_of(text);
    if find_first(&chars, '/') < chars.len() {
        LiteralForm::Ratio
    } else if find_first(&chars, '.') < chars.len() {
        LiteralForm::Decimal
    } else {
        LiteralForm::Integer
    }
}

/// A text of decimal digits holds neither `/` nor `.`, so it is read as
/// an integer.
pub proof fn lemma_decimal_is_integer(text: Seq<char>)
    requires
        is_decimal(text),
    ensures
        form_of(text) == LiteralForm::Integer,
{
    assert forall|i: int| 0 <= i < text.len() implies text[i] != '/' && text[i] != '.' by {
        assert(is_digit(text[i]));
    }
}

/// The decimal notation of a number that fits in 128 bits is a text that
/// `parse` owes a result for: decimal digits, read as an integer, below the
/// prime. The number is its own low limb.
pub proof fn lemma_integer_text(n: nat)
    requires
        n < pow2(128),
    ensures
        is_decimal(decimal_text(n)),
        decimal_value(decimal_text(n)) == n,
        form_of(decimal_text(n)) == LiteralForm::Integer,
        n < felt_prime(),
        split(n) == (Limbs { low: n, high: 0 }),
{
    lemma_decimal_text_value(n);
    lemma_decimal_is_integer(decimal_text(n));
    lemma_limb_below_prime(n);
    lemma_split_small(n);
}

/// Exchanging numerator and denominator twice gives the fraction back.
pub proof fn lemma_reciprocal_involution(f: FeltFraction)
    ensures
        f.swapped().swapped() == f,
        f@.reciprocal().reciprocal() == f@,
        f.swapped()@ == f@.reciprocal(),
{
}

/// A text is refused as not finite in one case only: it has the decimal
/// notation and the double that it denotes is an infinity or a NaN.
pub proof fn lemma_non_finite(text: Seq<char>, double: Option<u64>)
    ensures
        parsed(text, double) == Err::<Ratio, ParseError>(ParseError::NonFinite) <==> (form_of(text)
            == LiteralForm::Decimal && double is Some && !is_finite_bits(double->Some_0)),
{
}

/// A text made of a left side without `/`, a `/` and a right side is a
/// ratio of these two sides.
pub proof fn lemma_ratio_sides(left: Seq<char>, right: Seq<char>)
    requires
        !left.contains('/'),
    ensures
        form_of(left + seq!['/'] + right) == LiteralForm::Ratio,
        ratio_left(left + seq!['/'] + right) == left,
        ratio_right(left + seq!['/'] + right) == right,
{
    let text = left + seq!['/'] + right;
    let at = left.len() as int;
    assert(text[at] == '/');
    assert(text.contains('/'));
    lemma_first_index_from(text, '/', 0);
    let slash = first_index(text, '/');
    if slash < at {
        assert(text[slash] == left[slash]);
        assert(left.contains('/'));
    }
    assert(text.take(slash) =~= left);
    assert(text.skip(slash + 1) =~= right);
}

/// Two literals with a `/` between them parse to the fraction of what they
/// denote, whatever the two are. The left one holds no `/`.
pub proof fn lemma_ratio_of_literals(left: Seq<char>, right: Seq<char>, double: Option<u64>)
    requires
        !left.contains('/'),
        literal_value(left) is Some,
        literal_value(right) is Some,
    ensures
        parsed(left + seq!['/'] + right, double) == Ok::<Ratio, ParseError>(
            Ratio {
                numer: split(literal_value(left)->Some_0),
                denom: split(literal_value(right)->Some_0),
            },
        ),
{
    lemma_ratio_sides(left, right);
}

/// Two numbers in decimal notation with a `/` between them make a ratio
/// whose sides are the two notations. Where both numbers are below the
/// prime, this is a text that `parse` owes a result for.
pub proof fn lemma_ratio_text(a: nat, b: nat)
    ensures
        form_of(decimal_text(a) + seq!['/'] + decimal_text(b)) == LiteralForm::Ratio,
        ratio_left(decimal_text(a) + seq!['/'] + decimal_text(b)) == decimal_text(a),
        ratio_right(decimal_text(a) + seq!['/'] + decimal_text(b)) == decimal_text(b),
        is_decimal(decimal_text(a)) && decimal_value(decimal_text(a)) == a,
        is_decimal(decimal_text(b)) && decimal_value(decimal_text(b)) == b,
{
    lemma_decimal_text_value(a);
    lemma_decimal_text_value(b);
    lemma_decimal_is_integer(decimal_text(a));
    lemma_ratio_sides(decimal_text(a), decimal_text(b));
}

/// Every limb of a parsed fraction fits in 128 bits.
pub proof fn lemma_parsed_in_range(text: Seq<char>, double: Option<u64>)
    ensures
        parsed(text, double) matches Ok(v) ==> v.in_range(),
{
    if let Ok(v) = parsed(text, double) {
        match form_of(text) {
            LiteralForm::Ratio => {
                lemma_split_truncates(literal_value(ratio_left(text))->Some_0);
                lemma_split_truncates(literal_value(ratio_right(text))->Some_0);
            },
            LiteralForm::Decimal => {
                let bits = double->Some_0;
                lemma_split_truncates(double_numerator(bits));
                lemma_split_truncates(double_denominator(bits));
            },
            LiteralForm::Integer => {
                lemma_split_truncates(literal_value(text)->Some_0);
                lemma2_to64();
                lemma_pow2_strictly_increases(0, 128);
            },
        }
    }
}

/// A finite double whose magnitude and denominator fit in 128 bits parses
/// to them as they are, in the low limbs: the magnitude of a double that is
/// not negative, `2^128` less the magnitude of a negative one.
pub proof fn lemma_double_within_128(bits: u64)
    requires
        is_finite_bits(bits),
        magnitude(bits) < pow2(128),
        double_denominator(bits) < pow2(128),
    ensures
        parsed_double(bits) == Ok::<Ratio, ParseError>(
            Ratio {
                numer: Limbs { low: double_numerator(bits), high: 0 },
                denom: Limbs { low: double_denominator(bits), high: 0 },
            },
        ),
        sign_of(bits) > 0 ==> double_numerator(bits) == magnitude(bits),
        sign_of(bits) < 0 && magnitude(bits) > 0 ==> double_numerator(bits) == pow2(128)
            - magnitude(bits),
        sign_of(bits) < 0 && magnitude(bits) == 0 ==> double_numerator(bits) == 0,
{
    let a = pow2(128) as int;
    let m = magnitude(bits) as int;
    lemma_pow2_pos(128);
    lemma_small_mod(m as nat, a as nat);
    if m > 0 {
        lemma_small_mod((a - m) as nat, a as nat);
    } else {
        lemma_mod_self_0(a);
    }
    let n = double_numerator(bits);
    let d = double_denominator(bits);
    assert(n < a);
    lemma_small_mod(n, a as nat);
    lemma_small_mod(d, a as nat);
    lemma_basic_div(n as int, a);
    lemma_basic_div(d as int, a);
    lemma_small_mod(0, a as nat);
}

impl FeltFraction {
    /// The fraction of the given numerator and denominator.
    pub fn new(numer: FeltParts, denom: FeltParts) -> (r: Self)
        ensures
            r.numer == numer,
            r.denom == denom,
    {
        Self { numer, denom }
    }

    /// Zero: 0 over 1.
    pub fn zero() -> (r: Self)
        ensures
            r@ == (Ratio { numer: zero_limbs(), denom: one_limbs() }),
            r@.is_zero(),
            r@.in_range(),
    {
        FeltFraction { numer: FeltParts::zero(), denom: FeltParts::one() }
    }

    /// Whether the numerator is zero, whatever the denominator.
    pub fn is_zero(&self) -> (r: bool)
        ensures
            r == self@.is_zero(),
    {
        let zero = felt_zero();
        felt_eq(&self.numer.low, &zero) && felt_eq(&self.numer.high, &zero)
    }

    /// One: 1 over 1.
    pub fn one() -> (r: Self)
        ensures
            r@ == (Ratio { numer: one_limbs(), denom: one_limbs() }),
            !r@.is_zero(),
            r@.in_range(),
    {
        FeltFraction { numer: FeltParts::one(), denom: FeltParts::one() }
    }

    /// The exact fraction of a double, given by its 64 bits. The numerator
    /// is the mantissa, shifted up by a positive exponent and negated in
    /// 128-bit two's complement for a negative double; the denominator is
    /// the power of two that a negative exponent asks for. Both are then
    /// split into limbs. An infinity or a NaN is refused.
    pub fn from_double_bits(bits: u64) -> (r: Result<Self, ParseError>)
        ensures
            ratio_of(r) == parsed_double(bits),
            r matches Ok(fraction) ==> fraction@.in_range(),
    {
        if !is_finite(bits) {
            return Err(ParseError::NonFinite);
        }
        let (mantissa, exponent, sign) = integer_decode(bits);
        let unshifted = biguint_from_u128(mantissa as u128);
        let one = biguint_from_u128(1);
        let (shifted, denominator) = if exponent < 0 {
            (unshifted, biguint_shl(one, (-exponent) as u32))
        } else {
            (biguint_shl(unshifted, exponent as u32), one)
        };
        proof {
            if exponent >= 0 {
                let m = mantissa_of(bits);
                let p = pow2(exponent as nat) as int;
                assert(m * p >= 0) by (nonlinear_arith)
                    requires
                        m >= 0,
                        p >= 0,
                ;
            }
            assert(biguint_value(shifted) == magnitude(bits));
            assert(biguint_value(denominator) == double_denominator(bits));
        }
        let numerator = if sign < 0 {
            negate_biguint(shifted)
        } else {
            shifted
        };
        Ok(
            FeltFraction {
                numer: FeltParts::from_biguint(numerator),
                denom: FeltParts::from_biguint(denominator),
            },
        )
    }

    /// Parses a ratio `a/b` of two field-element literals, a number with a
    /// decimal point, or one field-element literal, in this order of
    /// precedence. The ratio is split at its first `/`.
    ///
    /// For the decimal notation the caller reads the text as a double and
    /// hands over its bits in `double`, or nothing where the text is no
    /// double. For the other notations `double` is not looked at.
    pub fn parse(text: &str, double: Option<u64>) -> (r: Result<Self, ParseError>)
        ensures
            ratio_of(r) == parsed(text@, double),
            is_decimal(text@) && decimal_value(text@) < felt_prime() ==> ratio_of(r) == Ok::<
                Ratio,
                ParseError,
            >(Ratio { numer: split(decimal_value(text@)), denom: one_limbs() }),
            form_of(text@) == LiteralForm::Ratio && is_decimal(ratio_left(text@)) && decimal_value(
                ratio_left(text@),
            ) < felt_prime() && is_decimal(ratio_right(text@)) && decimal_value(ratio_right(text@))
                < felt_prime() ==> ratio_of(r) == Ok::<Ratio, ParseError>(
                Ratio {
                    numer: split(decimal_value(ratio_left(text@))),
                    denom: split(decimal_value(ratio_right(text@))),
                },
            ),
            r matches Ok(fraction) ==> fraction@.in_range(),
    {
        let chars = chars_of(text);
        let n = chars.len();
        let slash = find_first(&chars, '/');
        if slash < n {
            let left = text.substring_char(0, slash);
            let right = text.substring_char(slash + 1, n);
            let numer = match FeltParts::parse(left) {
                Ok(parts) => parts,
                Err(e) => {
                    return Err(e);
                },
            };
            let denom = match FeltParts::parse(right) {
                Ok(parts) => parts,
                Err(e) => {
                    return Err(e);
                },
            };
            Ok(FeltFraction { numer, denom })
        } else if find_first(&chars, '.') < n {
            match double {
                Some(bits) => FeltFraction::from_double_bits(bits),
                None => Err(ParseError::InvalidLiteral),
            }
        } else {
            match FeltParts::parse(text) {
                Ok(numer) => Ok(FeltFraction { numer, denom: FeltParts::one() }),
                Err(e) => Err(e),
            }
        }
    }

    /// Writes the fraction as `(low/high) / (low/high)`, each limb in
    /// decimal notation.
    pub fn to_string(&self) -> (r: String)
        ensures
            r@ == formatted(self@),
    {
        proof {
            reveal_strlit("(");
            reveal_strlit("/");
            reveal_strlit(") / (");
            reveal_strlit(")");
        }
        let mut out = String::from_str("(");
        out.append(felt_to_string(&self.numer.low).as_str());
        out.append("/");
        out.append(felt_to_string(&self.numer.high).as_str());
        out.append(") / (");
        out.append(felt_to_string(&self.denom.low).as_str());
        out.append("/");
        out.append(felt_to_string(&self.denom.high).as_str());
        out.append(")");
        assert(out@ =~= formatted(self@));
        out
    }

    /// The fraction with numerator and denominator exchanged. A zero
    /// numerator becomes a zero denominator without complaint.
    pub fn reciprocal(&self) -> (r: Self)
        ensures
            r == self.swapped(),
            r@ == self@.reciprocal(),
    {
        FeltFraction { numer: self.denom, denom: self.numer }
    }
}

} // verus!
