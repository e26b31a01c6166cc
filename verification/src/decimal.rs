//! Decimal literals: the way a script writes a number.

use crate::scan::chars_of;
use vstd::prelude::*;

verus! {

/// Whether `c` is one of the ten digits.
pub open spec fn is_digit(c: char) -> bool {
    '0' <= c <= '9'
}

/// Whether `s` is a decimal literal without a sign: digits with at most one
/// point among them, before them or behind them, and at least one digit.
pub open spec fn is_unsigned_decimal(s: Seq<char>) -> bool {
    &&& forall|i: int| 0 <= i < s.len() ==> is_digit(#[trigger] s[i]) || s[i] == '.'
    &&& exists|i: int| 0 <= i < s.len() && is_digit(#[trigger] s[i])
    &&& forall|i: int, j: int|
        0 <= i < j < s.len() ==> !(#[trigger] s[i] == '.' && #[trigger] s[j] == '.')
}

/// Whether `s` is a decimal literal: an unsigned one, or a minus sign
/// followed by an unsigned one. `12`, `-0.5`, `.5` and `7.` are decimal
/// literals; ``, `-`, `.`, `+1`, `1e3` and `1.2.3` are not.
pub open spec fn is_decimal(s: Seq<char>) -> bool {
    if s.len() > 0 && s[0] == '-' {
        is_unsigned_decimal(s.skip(1))
    } else {
        is_unsigned_decimal(s)
    }
}

/// Whether `c` is a digit.
pub fn digit(c: char) -> (yes: bool)
    ensures
        yes == is_digit(c),
{
    '0' <= c && c <= '9'
}

/// Whether `text` is a decimal literal.
pub fn decimal(text: &str) -> (yes: bool)
    ensures
        yes == is_decimal(text@),
{
    let chars = chars_of(text);
    let n = chars.len();
    let start: usize = if n > 0 && chars[0] == '-' {
        1
    } else {
        0
    };
    let ghost body = text@.skip(start as int);
    assert(text@.skip(0) == text@);
    let mut seen_digit = false;
    let mut seen_point = false;
    let mut at: usize = start;
    while at < n
        invariant
            chars@ == text@,
            n == chars.len(),
            start <= at <= n,
            body == text@.skip(start as int),
            is_decimal(text@) == is_unsigned_decimal(body),
            forall|i: int| 0 <= i < at - start ==> is_digit(#[trigger] body[i]) || body[i] == '.',
            seen_digit <==> exists|i: int| 0 <= i < at - start && is_digit(#[trigger] body[i]),
            seen_point <==> exists|i: int| 0 <= i < at - start && #[trigger] body[i] == '.',
            forall|i: int, j: int|
                0 <= i < j < at - start ==> !(#[trigger] body[i] == '.' && #[trigger] body[j]
                    == '.'),
        decreases n - at,
    {
        let c = chars[at];
        assert(c == body[at - start]);
        if c == '.' {
            if seen_point {
                proof {
                    let earlier = choose|i: int| 0 <= i < at - start && #[trigger] body[i] == '.';
                    assert(body[earlier] == '.' && body[at - start] == '.');
                }
                return false;
            }
            seen_point = true;
        } else if digit(c) {
            seen_digit = true;
        } else {
            return false;
        }
        at += 1;
    }
    seen_digit
}

/// A decimal literal, kept as it was written.
///
/// The text of a `Decimal` always satisfies [`is_decimal`], so it can be
/// handed to any reader of decimal numbers without a further check.
#[derive(Debug, PartialEq, Eq)]
pub struct Decimal {
    text: String,
}

impl View for Decimal {
    type V = Seq<char>;

    closed spec fn view(&self) -> Seq<char> {
        self.text@
    }
}

impl Clone for Decimal {
    fn clone(&self) -> (copy: Decimal)
        ensures
            copy@ == self@,
    {
        proof {
            use_type_invariant(self);
        }
        Decimal { text: self.text.clone() }
    }
}

impl Decimal {
    #[verifier::type_invariant]
    spec fn well_formed(self) -> bool {
        is_decimal(self.text@)
    }

    /// Reads `text` as a decimal literal. The result is `Some` exactly when
    /// `text` is one, and then holds that text.
    pub fn parse(text: &str) -> (read: Option<Decimal>)
        ensures
            read is Some <==> is_decimal(text@),
            read matches Some(literal) ==> literal@ == text@,
    {
        if decimal(text) {
            Some(Decimal { text: text.to_owned() })
        } else {
            None
        }
    }

    /// The literal as it was written.
    pub fn as_str(&self) -> (text: &str)
        ensures
            text@ == self@,
            is_decimal(text@),
    {
        proof {
            use_type_invariant(self);
        }
        self.text.as_str()
    }
}

} // verus!
