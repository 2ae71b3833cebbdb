//! Scanning the characters of a text, and decimal notation.

use vstd::arithmetic::power::{lemma_pow0, lemma_pow_increases, lemma_pow_positive, pow};
use vstd::prelude::*;

verus! {

/// The characters of a text, in order.
pub fn chars_of(text: &str) -> (v: Vec<char>)
    ensures
        v@ == text@,
{
    let mut v: Vec<char> = Vec::new();
    for c in it: text.chars()
        invariant
            it.seq() == text@,
            v@ == it.seq().take(it.index()),
    {
        v.push(c);
        assert(it.seq().take(it.index() + 1) =~= it.seq().take(it.index()).push(c));
    }
    assert(v@ =~= text@);
    v
}

/// The position of the first `c` in `s` at or after `from`, or the length
/// of `s` where there is none.
pub open spec fn first_index_from(s: Seq<char>, c: char, from: int) -> int
    decreases s.len() - from,
{
    if from < 0 || from >= s.len() {
        s.len() as int
    } else if s[from] == c {
        from
    } else {
        first_index_from(s, c, from + 1)
    }
}

/// The position of the first `c` in `s`, or the length of `s` where `c`
/// does not occur.
pub open spec fn first_index(s: Seq<char>, c: char) -> int {
    first_index_from(s, c, 0)
}

/// `first_index_from` is the least position from `from` on that holds `c`.
pub proof fn lemma_first_index_from(s: Seq<char>, c: char, from: int)
    requires
        0 <= from <= s.len(),
    ensures
        from <= first_index_from(s, c, from) <= s.len(),
        first_index_from(s, c, from) < s.len() ==> s[first_index_from(s, c, from)] == c,
        forall|j: int| from <= j < first_index_from(s, c, from) ==> s[j] != c,
    decreases s.len() - from,
{
    if from < s.len() && s[from] != c {
        lemma_first_index_from(s, c, from + 1);
    }
}

/// `c` occurs in `s` exactly where `first_index` points into `s`.
pub proof fn lemma_first_index_contains(s: Seq<char>, c: char)
    ensures
        s.contains(c) <==> first_index(s, c) < s.len(),
        0 <= first_index(s, c) <= s.len(),
{
    lemma_first_index_from(s, c, 0);
    let i = first_index(s, c);
    if i < s.len() {
        assert(s[i] == c);
    }
}

/// Finds the first `c` among `chars`; the length where there is none.
pub fn find_first(chars: &Vec<char>, c: char) -> (i: usize)
    ensures
        i == first_index(chars@, c),
        i <= chars@.len(),
        i < chars@.len() <==> chars@.contains(c),
{
    let mut i: usize = 0;
    while i < chars.len() && chars[i] != c
        invariant
            i <= chars@.len(),
            first_index(chars@, c) == first_index_from(chars@, c, i as int),
        decreases chars@.len() - i,
    {
        i += 1;
    }
    proof {
        lemma_first_index_contains(chars@, c);
    }
    i
}

/// Whether `c` is one of the ten decimal digits.
pub open spec fn is_digit(c: char) -> bool {
    '0' <= c <= '9'
}

/// The number that a decimal digit stands for.
pub open spec fn digit_value(c: char) -> nat {
    (c as int - '0' as int) as nat
}

/// The decimal digit that stands for `d`, a number below ten.
pub open spec fn digit_char(d: nat) -> char {
    ((d + 48) as u8) as char
}

/// A text is decimal where it is not empty and holds digits only.
pub open spec fn is_decimal(s: Seq<char>) -> bool {
    s.len() > 0 && forall|i: int| 0 <= i < s.len() ==> is_digit(#[trigger] s[i])
}

/// The number that a text of digits denotes, read from left to right.
pub open spec fn decimal_value(s: Seq<char>) -> nat
    decreases s.len(),
{
    if s.len() == 0 {
        0
    } else {
        10 * decimal_value(s.drop_last()) + digit_value(s.last())
    }
}

/// The decimal notation of `n`, without leading zeros.
pub open spec fn decimal_text(n: nat) -> Seq<char>
    decreases n,
{
    if n < 10 {
        seq![digit_char(n)]
    } else {
        decimal_text(n / 10).push(digit_char(n % 10))
    }
}

/// Reading the decimal notation of a number gives the number back.
pub proof fn lemma_decimal_text_value(n: nat)
    ensures
        is_decimal(decimal_text(n)),
        decimal_value(decimal_text(n)) == n,
    decreases n,
{
    let t = decimal_text(n);
    if n < 10 {
        assert(t.drop_last() =~= Seq::<char>::empty());
        assert(decimal_value(t.drop_last()) == 0);
        assert(t.last() == digit_char(n));
    } else {
        lemma_decimal_text_value(n / 10);
        assert(t.drop_last() =~= decimal_text(n / 10));
        assert(t.last() == digit_char(n % 10));
        assert forall|i: int| 0 <= i < t.len() implies is_digit(#[trigger] t[i]) by {
            if i < t.len() - 1 {
                assert(t[i] == decimal_text(n / 10)[i]);
            }
        }
    }
}

/// The first 77 of the 78 digits of `2^256`.
pub const LIMIT_DIGITS: &'static str =
    "11579208923731619542357098500868790785326998466564056403945758400791312963993";

/// The position of the first character at or after `from` that is not `0`,
/// or the length of `s` where only zeros follow.
pub open spec fn skip_zeros(s: Seq<char>, from: int) -> int
    decreases s.len() - from,
{
    if from < 0 || from >= s.len() {
        s.len() as int
    } else if s[from] != '0' {
        from
    } else {
        skip_zeros(s, from + 1)
    }
}

/// Where the significant digits of a decimal literal begin: after one
/// leading minus sign, if there is one, and after all leading zeros.
pub open spec fn digits_start(s: Seq<char>) -> int {
    if s.len() > 0 && s[0] == '-' {
        skip_zeros(s, 1)
    } else {
        skip_zeros(s, 0)
    }
}

/// Whether the significant digits of `s` begin with the digits of `2^256`,
/// `2^256 + 1`, `2^256 + 2` or `2^256 + 3`: the 77 digits of
/// [`LIMIT_DIGITS`] and then one of `6`, `7`, `8`, `9`.
pub open spec fn reaches_limit(s: Seq<char>) -> bool {
    let start = digits_start(s);
    &&& s.len() - start >= 78
    &&& s.subrange(start, start + 77) == LIMIT_DIGITS@
    &&& (s[start + 77] == '6' || s[start + 77] == '7' || s[start + 77] == '8' || s[start + 77]
        == '9')
}

/// `skip_zeros` stays within the text and passes zeros only.
pub proof fn lemma_skip_zeros(s: Seq<char>, from: int)
    requires
        0 <= from <= s.len(),
    ensures
        from <= skip_zeros(s, from) <= s.len(),
        skip_zeros(s, from) < s.len() ==> s[skip_zeros(s, from)] != '0',
        forall|j: int| from <= j < skip_zeros(s, from) ==> s[j] == '0',
    decreases s.len() - from,
{
    if from < s.len() && s[from] == '0' {
        lemma_skip_zeros(s, from + 1);
    }
}

/// A text of digits denotes at least what any of its prefixes denotes,
/// scaled by ten for each digit that follows the prefix.
pub proof fn lemma_decimal_prefix(s: Seq<char>, k: int)
    requires
        0 <= k <= s.len(),
    ensures
        decimal_value(s) >= decimal_value(s.take(k)) * pow(10, (s.len() - k) as nat),
    decreases s.len() - k,
{
    if k == s.len() {
        assert(s.take(k) =~= s);
        lemma_pow0(10);
    } else {
        let shorter = s.drop_last();
        lemma_decimal_prefix(shorter, k);
        assert(shorter.take(k) =~= s.take(k));
        let head = decimal_value(s.take(k)) as int;
        let scale = pow(10, (shorter.len() - k) as nat);
        assert(pow(10, (s.len() - k) as nat) == 10 * scale) by {
            reveal(pow);
        }
        assert(head * (10 * scale) == 10 * (head * scale)) by (nonlinear_arith);
    }
}

/// A text of digits that reaches the limit denotes `10^77` at least.
pub proof fn lemma_limit_is_large(s: Seq<char>)
    requires
        is_decimal(s),
        reaches_limit(s),
    ensures
        decimal_value(s) >= pow(10, 77),
{
    reveal_strlit("11579208923731619542357098500868790785326998466564056403945758400791312963993");
    let start = digits_start(s);
    assert(is_digit(s[0]));
    lemma_skip_zeros(s, 0);
    assert(s.subrange(start, start + 77)[0] == '1');
    let head = s.take(start + 1);
    assert(head.last() == '1');
    assert(decimal_value(head) >= 1);
    lemma_decimal_prefix(s, start + 1);
    let rest = (s.len() - (start + 1)) as nat;
    lemma_pow_increases(10, 77, rest);
    lemma_pow_positive(10, rest);
    assert(decimal_value(head) * pow(10, rest) >= pow(10, rest)) by (nonlinear_arith)
        requires
            decimal_value(head) >= 1,
            pow(10, rest) > 0,
    ;
}

/// Decides [`reaches_limit`].
pub fn check_limit(chars: &Vec<char>) -> (r: bool)
    ensures
        r == reaches_limit(chars@),
{
    let n = chars.len();
    let mut start: usize = if n > 0 && chars[0] == '-' {
        1
    } else {
        0
    };
    while start < n && chars[start] == '0'
        invariant
            n == chars@.len(),
            start <= n,
            digits_start(chars@) == skip_zeros(chars@, start as int),
        decreases n - start,
    {
        start += 1;
    }
    assert(start == digits_start(chars@));
    if n - start < 78 {
        return false;
    }
    let limit = chars_of(LIMIT_DIGITS);
    proof {
        reveal_strlit("11579208923731619542357098500868790785326998466564056403945758400791312963993");
    }
    assert(limit@.len() == 77);
    let mut k: usize = 0;
    while k < 77
        invariant
            n == chars@.len(),
            start + 78 <= n,
            start == digits_start(chars@),
            k <= 77,
            limit@ == LIMIT_DIGITS@,
            limit@.len() == 77,
            forall|j: int| 0 <= j < k ==> chars@[start + j] == limit@[j],
        decreases 77 - k,
    {
        if chars[start + k] != limit[k] {
            assert(chars@.subrange(start as int, start + 77)[k as int] != limit@[k as int]);
            return false;
        }
        k += 1;
    }
    assert(chars@.subrange(start as int, start + 77) =~= limit@);
    let last = chars[start + 77];
    last == '6' || last == '7' || last == '8' || last == '9'
}

} // verus!
