//! One way in for both grammars: text in, ordered steps out.

use crate::error::{Failure, ScriptError};
use crate::flat::{command_outcome, points_of, read_command};
use crate::line::{Marker, Step, StepView};
use crate::point::{Coordinates, CoordinatesView};
use crate::scan::lines_of;
use crate::script::{read_script, script_outcome, steps_of, steps_read};
use vstd::prelude::*;

verus! {

/// The grammar in which a text is written.
#[derive(Debug, Clone, Copy, PartialEq, Eq, Structural)]
pub enum Grammar {
    /// A keyword and a list of `x,y` tokens, as [`read_command`] reads it.
    Command,
    /// Marked lines, as [`read_script`] reads them.
    Script,
}

/// The points of a command as steps: each of them absolute.
pub open spec fn absolute_steps(points: Seq<CoordinatesView>) -> Seq<StepView> {
    points.map_values(|point: CoordinatesView| StepView { marker: Marker::Absolute, at: point })
}

/// What the text `s` is read as in the grammar `grammar`.
pub open spec fn source_outcome(grammar: Grammar, s: Seq<char>) -> Result<Seq<StepView>, Failure> {
    match grammar {
        Grammar::Command => match command_outcome(s) {
            Ok(points) => Ok(absolute_steps(points)),
            Err(failure) => Err(failure),
        },
        Grammar::Script => script_outcome(lines_of(s)),
    }
}

/// Reads `text` in the grammar `grammar` into its steps, in the order in
/// which the text gives them. A command has absolute steps only.
///
/// Where the text cannot be read the result is the failure that the
/// grammar's own reader gives, and holds no step.
pub fn read_steps(grammar: Grammar, text: &str) -> (read: Result<Vec<Step>, ScriptError>)
    ensures
        steps_read(read) == source_outcome(grammar, text@),
{
    match grammar {
        Grammar::Command => {
            let points = match read_command(text) {
                Ok(points) => points,
                Err(error) => {
                    return Err(error);
                },
            };
            let ghost written = points_of(points@);
            let mut steps: Vec<Step> = Vec::new();
            for point in it: points
                invariant
                    written == it.seq().map_values(|point: Coordinates| point@),
                    steps.len() == it.index(),
                    forall|j: int|
                        0 <= j < it.index() ==> (#[trigger] steps[j])@ == (StepView {
                            marker: Marker::Absolute,
                            at: written[j],
                        }),
            {
                steps.push(Step { marker: Marker::Absolute, at: point });
            }
            proof {
                assert(steps_of(steps@) == absolute_steps(written));
            }
            Ok(steps)
        },
        Grammar::Script => read_script(text),
    }
}

} // verus!
