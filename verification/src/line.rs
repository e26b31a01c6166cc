//! One line of a script: a marker and two decimal fields.
//!
//! The fields are pulled out of the line by a regular expression, which the
//! `regex` crate evaluates. What it finds is then judged here: whether the
//! line has the shape of a step, and what its marker means.

use crate::decimal::{is_decimal, Decimal};
use crate::error::{Failure, ScriptError};
use crate::point::{Coordinates, CoordinatesView};
use crate::scan::chars_of;
use vstd::prelude::*;

verus! {

/// How the coordinates of a line are to be read.
#[derive(Debug, Clone, Copy, PartialEq, Eq, Structural)]
pub enum Marker {
    /// The coordinates are the point itself.
    Absolute,
    /// The coordinates are an offset from the point of the line before.
    Relative,
}

/// One line of a script, read but not yet resolved against its
/// predecessor.
#[derive(Debug, PartialEq, Eq)]
pub struct Step {
    pub marker: Marker,
    pub at: Coordinates,
}

/// The mathematical value of a [`Step`].
pub struct StepView {
    pub marker: Marker,
    pub at: CoordinatesView,
}

impl View for Step {
    type V = StepView;

    open spec fn view(&self) -> StepView {
        StepView { marker: self.marker, at: self.at@ }
    }
}

impl Clone for Step {
    fn clone(&self) -> (copy: Step)
        ensures
            copy@ == self@,
    {
        Step { marker: self.marker, at: self.at.clone() }
    }
}

/// The mathematical value of the result of reading one line.
pub open spec fn step_read(read: Result<Step, ScriptError>) -> Result<StepView, Failure> {
    match read {
        Ok(step) => Ok(step@),
        Err(error) => Err(error@),
    }
}

/// The regular expression that a line is held against: one character for
/// the marker, then two fields of digits with an optional minus sign and an
/// optional point, each after at least one blank or tab. Blanks, tabs and
/// carriage returns may follow the second field, and nothing else. The
/// expression alone admits fields without any digit; [`line_outcome`]
/// refuses them.
pub const LINE_PATTERN: &'static str =
    "^(.)[ \\t]+(-?[0-9]*\\.?[0-9]*)[ \\t]+(-?[0-9]*\\.?[0-9]*)[ \\t\\r]*$";

/// What the marker character `c` stands for: `a` and the blank are absolute,
/// `r` is relative, and no other character is a marker.
pub open spec fn marker_of(c: char) -> Option<Marker> {
    if c == 'a' || c == ' ' {
        Some(Marker::Absolute)
    } else if c == 'r' {
        Some(Marker::Relative)
    } else {
        None
    }
}

impl Marker {
    /// Reads a marker character.
    pub fn from_char(c: char) -> (read: Option<Marker>)
        ensures
            read == marker_of(c),
    {
        if c == 'a' || c == ' ' {
            Some(Marker::Absolute)
        } else if c == 'r' {
            Some(Marker::Relative)
        } else {
            None
        }
    }
}

/// What `regex::Regex::captures` finds when the expression `pattern` is
/// searched in `text`: `None` where `regex::Regex::new` does not accept
/// `pattern` or the expression matches nowhere in `text`. Otherwise the
/// capture groups of the leftmost match in the order of their opening
/// brackets, the whole match first, each with the text it matched, or `None`
/// for a group that took no part in the match.
pub uninterp spec fn groups_of(pattern: Seq<char>, text: Seq<char>) -> Option<Seq<Option<Seq<char>>>>;

/// Compiles `pattern` with `regex::Regex::new` and searches it in `text` with
/// `regex::Regex::captures`; the groups are copied out with
/// `regex::Captures::iter` and `regex::Match::as_str`.
///
/// Not proved: that the result is the one that [`groups_of`] names. This
/// holds because compiling and searching depend on nothing but the two
/// texts.
#[verifier::external_body]
fn capture_groups(pattern: &str, text: &str) -> (found: Option<Vec<Option<String>>>)
    ensures
        found.deep_view() == groups_of(pattern@, text@),
{
    let engine = regex::Regex::new(pattern).ok()?;
    let captures = engine.captures(text)?;
    Some(captures.iter().map(|group| Some(group?.as_str().to_owned())).collect())
}

/// Whether `groups` has the shape of a step: the whole match and three
/// groups, of which the first is a single character and the other two are
/// decimal literals.
pub open spec fn has_step_shape(groups: Seq<Option<Seq<char>>>) -> bool {
    &&& groups.len() == 4
    &&& groups[1] matches Some(marker) && marker.len() == 1
    &&& groups[2] matches Some(x) && is_decimal(x)
    &&& groups[3] matches Some(y) && is_decimal(y)
}

/// What a line is read as, given what the search in it found.
///
/// A line in which nothing was found, or whose groups do not have the shape
/// of a step, is malformed, and the failure carries the line. A line of the
/// right shape whose first character is no marker has an unknown marker.
pub open spec fn line_outcome(line: Seq<char>, found: Option<Seq<Option<Seq<char>>>>) -> Result<
    StepView,
    Failure,
> {
    if found is Some && has_step_shape(found->0) {
        let groups = found->0;
        match marker_of(groups[1]->0[0]) {
            Some(marker) => Ok(
                StepView { marker, at: CoordinatesView { x: groups[2]->0, y: groups[3]->0 } },
            ),
            None => Err(Failure::UnknownMarker),
        }
    } else {
        Err(Failure::MalformedLine(line))
    }
}

/// Whatever the search found, a line is read as a step only with two
/// decimal literals for its coordinates and a marker that its first group
/// names, and fails with nothing but `MalformedLine` of that very line or
/// `UnknownMarker`.
pub proof fn lemma_line_outcome(line: Seq<char>, found: Option<Seq<Option<Seq<char>>>>)
    ensures
        match line_outcome(line, found) {
            Ok(step) => {
                &&& is_decimal(step.at.x)
                &&& is_decimal(step.at.y)
                &&& found is Some
                &&& found->0[1] is Some
                &&& marker_of(found->0[1]->0[0]) == Some(step.marker)
            },
            Err(failure) => failure == Failure::MalformedLine(line) || failure
                == Failure::UnknownMarker,
        },
{
}

/// What reading `line` gives.
pub open spec fn line_read(line: Seq<char>) -> Result<StepView, Failure> {
    line_outcome(line, groups_of(LINE_PATTERN@, line))
}

/// Judges what a search in `line` found: see [`line_outcome`].
pub fn interpret(line: &str, found: Option<Vec<Option<String>>>) -> (read: Result<
    Step,
    ScriptError,
>)
    ensures
        step_read(read) == line_outcome(line@, found.deep_view()),
{
    let groups = match found {
        Some(groups) => groups,
        None => {
            return Err(ScriptError::MalformedLine(line.to_owned()));
        },
    };
    if groups.len() != 4 {
        return Err(ScriptError::MalformedLine(line.to_owned()));
    }
    let fields = match (&groups[1], &groups[2], &groups[3]) {
        (Some(marker), Some(x), Some(y)) => {
            let marker = chars_of(marker.as_str());
            if marker.len() == 1 {
                match (Decimal::parse(x.as_str()), Decimal::parse(y.as_str())) {
                    (Some(x), Some(y)) => Some((marker[0], x, y)),
                    _ => None,
                }
            } else {
                None
            }
        },
        _ => None,
    };
    match fields {
        Some((marker, x, y)) => match Marker::from_char(marker) {
            Some(marker) => Ok(Step { marker, at: Coordinates { x, y } }),
            None => Err(ScriptError::UnknownMarker),
        },
        None => Err(ScriptError::MalformedLine(line.to_owned())),
    }
}

/// Reads one line of a script.
///
/// The line is searched for [`LINE_PATTERN`], and what is found is judged
/// by [`interpret`].
pub fn read_line(line: &str) -> (read: Result<Step, ScriptError>)
    ensures
        step_read(read) == line_read(line@),
{
    interpret(line, capture_groups(LINE_PATTERN, line))
}

} // verus!
