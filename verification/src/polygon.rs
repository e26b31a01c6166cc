//! The rules by which a list of vertices is admitted as a polygon.
//!
//! A polygon has at least three vertices and encloses an area that is
//! strictly positive. The area is a matter of the caller's arithmetic; this
//! module takes its sign and decides.

use crate::error::{Failure, ScriptError};
use vstd::prelude::*;

verus! {

/// The least number of vertices of a polygon.
pub const MIN_VERTICES: usize = 3;

/// The mathematical value of a verdict.
pub open spec fn verdict_of(verdict: Result<(), ScriptError>) -> Result<(), Failure> {
    match verdict {
        Ok(()) => Ok(()),
        Err(error) => Err(error@),
    }
}

/// Whether `count` vertices are enough: fewer than [`MIN_VERTICES`] are
/// `InsufficientPoints`.
pub open spec fn count_verdict(count: nat) -> Result<(), Failure> {
    if count < MIN_VERTICES {
        Err(Failure::InsufficientPoints)
    } else {
        Ok(())
    }
}

/// Whether `count` vertices are admitted as a polygon, given whether the
/// area they enclose is strictly positive. The number of vertices is judged
/// first: with too few of them the area does not matter. With enough of
/// them, an area that is not strictly positive is a `DegenerateArea`.
pub open spec fn admission(count: nat, area_is_positive: bool) -> Result<(), Failure> {
    if count < MIN_VERTICES {
        Err(Failure::InsufficientPoints)
    } else if !area_is_positive {
        Err(Failure::DegenerateArea)
    } else {
        Ok(())
    }
}

/// Judges the number of vertices alone, before any area is computed.
pub fn check_count(count: usize) -> (verdict: Result<(), ScriptError>)
    ensures
        verdict_of(verdict) == count_verdict(count as nat),
{
    if count < MIN_VERTICES {
        Err(ScriptError::InsufficientPoints)
    } else {
        Ok(())
    }
}

/// Judges a list of `count` vertices whose area is strictly positive or
/// not, as `area_is_positive` says.
///
/// Zero, one or two vertices are refused with `InsufficientPoints`, whatever
/// is said of the area.
pub fn judge(count: usize, area_is_positive: bool) -> (verdict: Result<(), ScriptError>)
    ensures
        verdict_of(verdict) == admission(count as nat, area_is_positive),
        count < 3 ==> verdict_of(verdict) == Err::<(), Failure>(Failure::InsufficientPoints),
        verdict is Ok <==> count >= 3 && area_is_positive,
{
    match check_count(count) {
        Ok(()) => {
            if area_is_positive {
                Ok(())
            } else {
                Err(ScriptError::DegenerateArea)
            }
        },
        Err(error) => Err(error),
    }
}

} // verus!
