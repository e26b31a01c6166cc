//! The ways in which reading a script or admitting a polygon can fail.

use vstd::prelude::*;

verus! {

/// Why a text was refused. Every failure ends the operation it occurs in.
#[derive(Debug, PartialEq, Eq)]
pub enum ScriptError {
    /// A token of the form `x,y` is not two decimal fields around one comma.
    MalformedPoint,
    /// A script line is not a marker followed by two decimal fields; the
    /// payload is the line as written.
    MalformedLine(String),
    /// A script line has the right shape, but its marker is not `a`, `r` or a
    /// blank.
    UnknownMarker,
    /// The keyword of a command is not the one that defines a polygon.
    UnknownCommand,
    /// The first line of a script is relative, so there is no point to
    /// which its offset could be added.
    LeadingRelative,
    /// Fewer than three vertices.
    InsufficientPoints,
    /// The area enclosed by the vertices is not strictly positive.
    DegenerateArea,
}

/// The mathematical value of a [`ScriptError`].
pub enum Failure {
    MalformedPoint,
    MalformedLine(Seq<char>),
    UnknownMarker,
    UnknownCommand,
    LeadingRelative,
    InsufficientPoints,
    DegenerateArea,
}

impl View for ScriptError {
    type V = Failure;

    open spec fn view(&self) -> Failure {
        match self {
            ScriptError::MalformedPoint => Failure::MalformedPoint,
            ScriptError::MalformedLine(line) => Failure::MalformedLine(line@),
            ScriptError::UnknownMarker => Failure::UnknownMarker,
            ScriptError::UnknownCommand => Failure::UnknownCommand,
            ScriptError::LeadingRelative => Failure::LeadingRelative,
            ScriptError::InsufficientPoints => Failure::InsufficientPoints,
            ScriptError::DegenerateArea => Failure::DegenerateArea,
        }
    }
}

} // verus!
