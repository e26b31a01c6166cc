//! A point as a command writes it: two decimal literals around a comma.

use crate::decimal::{is_decimal, Decimal};
use crate::error::{Failure, ScriptError};
use crate::scan::{chars_of, find_char, first_char, lemma_first_char_found};
use vstd::prelude::*;

verus! {

/// The two coordinates of a point, each as it was written.
#[derive(Debug, PartialEq, Eq)]
pub struct Coordinates {
    pub x: Decimal,
    pub y: Decimal,
}

/// The mathematical value of [`Coordinates`]: the texts of the two literals.
pub struct CoordinatesView {
    pub x: Seq<char>,
    pub y: Seq<char>,
}

impl View for Coordinates {
    type V = CoordinatesView;

    open spec fn view(&self) -> CoordinatesView {
        CoordinatesView { x: self.x@, y: self.y@ }
    }
}

impl Clone for Coordinates {
    fn clone(&self) -> (copy: Coordinates)
        ensures
            copy@ == self@,
    {
        Coordinates { x: self.x.clone(), y: self.y.clone() }
    }
}

/// Whether `s` writes a point: a decimal literal, a comma, a decimal
/// literal, and nothing else.
pub open spec fn is_point_text(s: Seq<char>) -> bool {
    let comma = first_char(s, ',') as int;
    comma < s.len() && is_decimal(s.take(comma)) && is_decimal(s.skip(comma + 1))
}

/// The two fields of a text that writes a point: what stands before its
/// first comma, and what stands behind it.
pub open spec fn point_fields(s: Seq<char>) -> CoordinatesView {
    let comma = first_char(s, ',') as int;
    CoordinatesView { x: s.take(comma), y: s.skip(comma + 1) }
}

/// What reading `s` as a point gives.
pub open spec fn point_outcome(s: Seq<char>) -> Result<CoordinatesView, Failure> {
    if is_point_text(s) {
        Ok(point_fields(s))
    } else {
        Err(Failure::MalformedPoint)
    }
}

/// A text that writes a point is its two fields with a comma between them,
/// and both fields are decimal literals.
pub proof fn lemma_point_is_its_fields(s: Seq<char>)
    requires
        is_point_text(s),
    ensures
        is_decimal(point_fields(s).x),
        is_decimal(point_fields(s).y),
        s == point_fields(s).x + seq![','] + point_fields(s).y,
{
    lemma_first_char_found(s, ',');
    assert(s =~= point_fields(s).x + seq![','] + point_fields(s).y);
}

/// The mathematical value of the result of reading one point.
pub open spec fn point_read(read: Result<Coordinates, ScriptError>) -> Result<
    CoordinatesView,
    Failure,
> {
    match read {
        Ok(point) => Ok(point@),
        Err(error) => Err(error@),
    }
}

impl Coordinates {
    /// Reads a point written as `x,y`.
    ///
    /// Succeeds exactly on the texts that [`is_point_text`] accepts; any other
    /// text is a `MalformedPoint`.
    pub fn from_text(text: &str) -> (read: Result<Coordinates, ScriptError>)
        ensures
            point_read(read) == point_outcome(text@),
    {
        let chars = chars_of(text);
        let n = chars.len();
        let comma = find_char(&chars, 0, ',');
        proof {
            assert(chars@.skip(0) == text@);
        }
        if comma >= n {
            return Err(ScriptError::MalformedPoint);
        }
        proof {
            assert(text@.take(comma as int) == text@.subrange(0, comma as int));
            assert(text@.skip(comma + 1) == text@.subrange(comma + 1, n as int));
        }
        let x = Decimal::parse(text.substring_char(0, comma));
        let y = Decimal::parse(text.substring_char(comma + 1, n));
        match (x, y) {
            (Some(x), Some(y)) => Ok(Coordinates { x, y }),
            _ => Err(ScriptError::MalformedPoint),
        }
    }
}

} // verus!
