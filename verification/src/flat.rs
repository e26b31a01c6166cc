//! A command: a keyword, then the points of a polygon as `x,y` tokens.

use crate::error::{Failure, ScriptError};
use crate::point::{is_point_text, point_fields, Coordinates, CoordinatesView};
use crate::scan::{chars_of, find_space, first_space, same_text, split_words, texts_of, words_of};
use vstd::prelude::*;

verus! {

/// The keyword of the one command there is: the definition of a polygon.
pub const POLYGON_KEYWORD: &'static str = "POLY";

/// The mathematical values of a vector of points, in order.
pub open spec fn points_of(points: Seq<Coordinates>) -> Seq<CoordinatesView> {
    points.map_values(|point: Coordinates| point@)
}

/// The mathematical value of the result of reading a list of points.
pub open spec fn points_read(read: Result<Vec<Coordinates>, ScriptError>) -> Result<
    Seq<CoordinatesView>,
    Failure,
> {
    match read {
        Ok(points) => Ok(points_of(points@)),
        Err(error) => Err(error@),
    }
}

/// The keyword of the command `s`: what stands before its first space.
pub open spec fn keyword_of(s: Seq<char>) -> Seq<char> {
    s.take(first_space(s) as int)
}

/// The parameters of the command `s`: the words behind its keyword.
pub open spec fn parameters_of(s: Seq<char>) -> Seq<Seq<char>> {
    words_of(s.skip(first_space(s) as int))
}

/// What a list of tokens is read as: one point for each token, in the order
/// of the tokens, where every token writes a point.
pub open spec fn point_list_outcome(tokens: Seq<Seq<char>>) -> Result<
    Seq<CoordinatesView>,
    Failure,
> {
    if forall|i: int| 0 <= i < tokens.len() ==> is_point_text(#[trigger] tokens[i]) {
        Ok(tokens.map_values(|token: Seq<char>| point_fields(token)))
    } else {
        Err(Failure::MalformedPoint)
    }
}

/// What the command `s` is read as: the points that its parameters write,
/// where its keyword is [`POLYGON_KEYWORD`]. The keyword is judged first.
pub open spec fn command_outcome(s: Seq<char>) -> Result<Seq<CoordinatesView>, Failure> {
    if keyword_of(s) == POLYGON_KEYWORD@ {
        point_list_outcome(parameters_of(s))
    } else {
        Err(Failure::UnknownCommand)
    }
}

/// Reads each of `tokens` as a point.
fn read_tokens(tokens: &Vec<String>) -> (read: Result<Vec<Coordinates>, ScriptError>)
    ensures
        points_read(read) == point_list_outcome(texts_of(tokens@)),
{
    let ghost texts = texts_of(tokens@);
    let mut points: Vec<Coordinates> = Vec::new();
    let mut at: usize = 0;
    while at < tokens.len()
        invariant
            texts == texts_of(tokens@),
            at <= tokens.len(),
            points.len() == at,
            forall|j: int|
                0 <= j < at ==> is_point_text(#[trigger] texts[j]) && points[j]@ == point_fields(
                    texts[j],
                ),
        decreases tokens.len() - at,
    {
        assert(texts[at as int] == tokens[at as int]@);
        match Coordinates::from_text(tokens[at].as_str()) {
            Ok(point) => {
                points.push(point);
            },
            Err(error) => {
                return Err(error);
            },
        }
        at += 1;
    }
    proof {
        assert(points_of(points@) == texts.map_values(|token: Seq<char>| point_fields(token)));
    }
    Ok(points)
}

/// Reads a list of points written as `x,y` tokens with spaces between
/// them.
///
/// The result holds one point for each token, in order. A token that does
/// not write a point makes the whole list a `MalformedPoint`.
pub fn read_point_list(text: &str) -> (read: Result<Vec<Coordinates>, ScriptError>)
    ensures
        points_read(read) == point_list_outcome(words_of(text@)),
{
    proof {
        assert(text@.skip(0) == text@);
    }
    let tokens = split_words(text, 0);
    read_tokens(&tokens)
}

/// Reads a command: a keyword, and behind the first run of spaces its
/// parameters.
///
/// Any keyword but [`POLYGON_KEYWORD`] is an `UnknownCommand`. The
/// parameters of a polygon are read as [`read_point_list`] reads them.
pub fn read_command(text: &str) -> (read: Result<Vec<Coordinates>, ScriptError>)
    ensures
        points_read(read) == command_outcome(text@),
{
    let chars = chars_of(text);
    let end = find_space(&chars, 0);
    proof {
        assert(chars@.skip(0) == text@);
        assert(text@.take(end as int) == text@.subrange(0, end as int));
    }
    if !same_text(text.substring_char(0, end), POLYGON_KEYWORD) {
        return Err(ScriptError::UnknownCommand);
    }
    let tokens = split_words(text, end);
    read_tokens(&tokens)
}

} // verus!
