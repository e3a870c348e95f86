//! The order of work for one invocation: every running session is shown and
//! the user is asked whether to end it; a refusal ends the invocation, and
//! after the last session a new one is launched unless only a check was asked.

use vstd::prelude::*;

verus! {

/// What to do next.
#[derive(Clone, Copy, Debug, PartialEq, Eq, Structural)]
pub enum Step {
    /// Show the session at this position and ask whether to end it.
    Ask(usize),
    /// Launch a new session.
    Launch,
    /// Stop without launching anything.
    Finish,
}

/// What follows an answer.
#[derive(Clone, Copy, Debug, PartialEq, Eq, Structural)]
pub struct Reply {
    /// End the session that was asked about.
    pub kill: bool,
    pub next: Step,
}

/// The step at position `cursor` of `found` sessions.
pub open spec fn step_at(cursor: int, found: int, check_only: bool) -> Step {
    if cursor < found {
        Step::Ask(cursor as usize)
    } else if check_only {
        Step::Finish
    } else {
        Step::Launch
    }
}

/// The step to take when the sessions before `cursor` have been dealt with.
pub fn next_step(cursor: usize, found: usize, check_only: bool) -> (step: Step)
    ensures
        step == step_at(cursor as int, found as int, check_only),
        check_only ==> step != Step::Launch,
{
    if cursor < found {
        Step::Ask(cursor)
    } else if check_only {
        Step::Finish
    } else {
        Step::Launch
    }
}

/// What follows the answer about the session at `cursor`: with a yes the
/// session is ended and the work goes on behind it; anything else ends the
/// invocation and leaves the session alone.
pub fn after_answer(cursor: usize, found: usize, confirmed: bool, check_only: bool) -> (reply: Reply)
    requires
        cursor < found,
    ensures
        reply == (if confirmed {
            Reply { kill: true, next: step_at(cursor + 1, found as int, check_only) }
        } else {
            Reply { kill: false, next: Step::Finish }
        }),
{
    if confirmed {
        Reply { kill: true, next: next_step(cursor + 1, found, check_only) }
    } else {
        Reply { kill: false, next: Step::Finish }
    }
}

} // verus!
