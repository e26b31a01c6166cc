//! A script: lines read in order, the first failure ending the pass.

use crate::error::{Failure, ScriptError};
use crate::line::{line_read, read_line, step_read, Marker, Step, StepView};
use crate::scan::{lemma_lines_not_empty, lines_of, split_lines, texts_of};
use vstd::prelude::*;

verus! {

/// The mathematical values of a vector of steps, in order.
pub open spec fn steps_of(steps: Seq<Step>) -> Seq<StepView> {
    steps.map_values(|step: Step| step@)
}

/// The mathematical value of the result of reading a list of steps.
pub open spec fn steps_read(read: Result<Vec<Step>, ScriptError>) -> Result<
    Seq<StepView>,
    Failure,
> {
    match read {
        Ok(steps) => Ok(steps_of(steps@)),
        Err(error) => Err(error@),
    }
}

/// What becomes of a line that was read as `read` when it stands at
/// position `i` of a script: a relative step is refused on the first line,
/// where it has no predecessor, and everything else stays as it is.
pub open spec fn placed(read: Result<StepView, Failure>, i: int) -> Result<StepView, Failure> {
    match read {
        Ok(step) => if i == 0 && step.marker == Marker::Relative {
            Err(Failure::LeadingRelative)
        } else {
            Ok(step)
        },
        Err(failure) => Err(failure),
    }
}

/// What line `i` of `lines` is read as in its place.
pub open spec fn step_at(lines: Seq<Seq<char>>, i: int) -> Result<StepView, Failure> {
    placed(line_read(lines[i]), i)
}

/// Whether line `k` is the first of `lines` that cannot be read.
pub open spec fn fails_first_at(lines: Seq<Seq<char>>, k: int) -> bool {
    &&& 0 <= k < lines.len()
    &&& step_at(lines, k) is Err
    &&& forall|j: int| 0 <= j < k ==> (#[trigger] step_at(lines, j)) is Ok
}

/// What a script with the lines `lines` is read as: one step for each
/// line, in the order of the lines, where every line can be read; else the
/// failure of the first line that cannot.
pub open spec fn script_outcome(lines: Seq<Seq<char>>) -> Result<Seq<StepView>, Failure> {
    if exists|k: int| fails_first_at(lines, k) {
        let k = choose|k: int| fails_first_at(lines, k);
        Err(step_at(lines, k)->Err_0)
    } else {
        Ok(Seq::new(lines.len(), |i: int| step_at(lines, i)->Ok_0))
    }
}

/// At most one line is the first that cannot be read.
pub proof fn lemma_first_failure_unique(lines: Seq<Seq<char>>, k: int, m: int)
    requires
        fails_first_at(lines, k),
        fails_first_at(lines, m),
    ensures
        k == m,
{
    if k < m {
        assert(step_at(lines, k) is Ok);
    } else if m < k {
        assert(step_at(lines, m) is Ok);
    }
}

/// Where some line cannot be read, some line is the first that cannot.
pub proof fn lemma_failure_has_first(lines: Seq<Seq<char>>, k: int)
    requires
        0 <= k < lines.len(),
        step_at(lines, k) is Err,
    ensures
        exists|m: int| fails_first_at(lines, m),
    decreases k,
{
    if forall|j: int| 0 <= j < k ==> (#[trigger] step_at(lines, j)) is Ok {
        assert(fails_first_at(lines, k));
    } else {
        let j = choose|j: int| 0 <= j < k && !((#[trigger] step_at(lines, j)) is Ok);
        lemma_failure_has_first(lines, j);
    }
}

/// A script is read exactly when each of its lines can be read in its
/// place. It then gives one step for each of its lines, in their order and
/// as [`line_read`] reads each, and its first step is absolute. A script that
/// is not read fails as its first unreadable line does.
pub proof fn lemma_script_in_line_order(lines: Seq<Seq<char>>)
    ensures
        script_outcome(lines) is Ok <==> forall|i: int|
            0 <= i < lines.len() ==> (#[trigger] step_at(lines, i)) is Ok,
        match script_outcome(lines) {
            Ok(steps) => {
                &&& steps.len() == lines.len()
                &&& forall|i: int|
                    0 <= i < lines.len() ==> line_read(lines[i]) == Ok::<StepView, Failure>(
                        #[trigger] steps[i],
                    )
                &&& lines.len() > 0 ==> steps[0].marker == Marker::Absolute
            },
            Err(failure) => exists|k: int|
                fails_first_at(lines, k) && step_at(lines, k) == Err::<StepView, Failure>(failure),
        },
{
    match script_outcome(lines) {
        Ok(steps) => {
            assert forall|i: int| 0 <= i < lines.len() implies (#[trigger] step_at(lines, i)) is Ok by {
                if step_at(lines, i) is Err {
                    lemma_failure_has_first(lines, i);
                }
            }
            assert forall|i: int| 0 <= i < lines.len() implies line_read(lines[i]) == Ok::<
                StepView,
                Failure,
            >(#[trigger] steps[i]) by {
                assert(step_at(lines, i) is Ok);
            }
            if lines.len() > 0 {
                assert(step_at(lines, 0) is Ok);
            }
        },
        Err(failure) => {
            let k = choose|k: int| fails_first_at(lines, k);
            assert(fails_first_at(lines, k) && step_at(lines, k) == Err::<StepView, Failure>(
                failure,
            ));
        },
    }
}

/// Puts a line that was read as `read` at position `index` of a script:
/// see [`placed`].
pub fn place(read: Result<Step, ScriptError>, index: usize) -> (put: Result<Step, ScriptError>)
    ensures
        step_read(put) == placed(step_read(read), index as int),
{
    match read {
        Ok(step) => {
            if index == 0 && step.marker == Marker::Relative {
                Err(ScriptError::LeadingRelative)
            } else {
                Ok(step)
            }
        },
        Err(error) => Err(error),
    }
}

/// Reads a script: its lines, cut at the line feeds, each read by
/// [`read_line`] in order.
///
/// The result holds one step for each line. The pass ends at the first line
/// that cannot be read, with that line's failure and without any step. A
/// script whose first line is relative is refused with `LeadingRelative`.
pub fn read_script(script: &str) -> (read: Result<Vec<Step>, ScriptError>)
    ensures
        steps_read(read) == script_outcome(lines_of(script@)),
        read matches Ok(steps) ==> steps.len() == lines_of(script@).len(),
        read matches Ok(steps) ==> steps.len() > 0 && steps[0].marker == Marker::Absolute,
{
    proof {
        lemma_script_in_line_order(lines_of(script@));
        lemma_lines_not_empty(script@);
    }
    let lines = split_lines(script);
    let ghost texts = lines_of(script@);
    let mut steps: Vec<Step> = Vec::new();
    let mut at: usize = 0;
    while at < lines.len()
        invariant
            texts == lines_of(script@),
            texts == texts_of(lines@),
            at <= lines.len(),
            steps.len() == at,
            forall|j: int|
                0 <= j < at ==> #[trigger] step_at(texts, j) == Ok::<StepView, Failure>(steps[j]@),
        decreases lines.len() - at,
    {
        assert(texts[at as int] == lines[at as int]@);
        match place(read_line(lines[at].as_str()), at) {
            Ok(step) => {
                steps.push(step);
            },
            Err(error) => {
                proof {
                    assert(fails_first_at(texts, at as int));
                    let k = choose|k: int| fails_first_at(texts, k);
                    lemma_first_failure_unique(texts, k, at as int);
                }
                return Err(error);
            },
        }
        at += 1;
    }
    proof {
        assert forall|k: int| !fails_first_at(texts, k) by {
            if 0 <= k < texts.len() {
                assert(step_at(texts, k) is Ok);
            }
        }
        assert(steps_of(steps@) == Seq::new(texts.len(), |i: int| step_at(texts, i)->Ok_0));
    }
    Ok(steps)
}

} // verus!
