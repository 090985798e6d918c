//! Carrying out a script: one step after the other, each awaited before
//! the next begins, nothing retried, and nothing more done once a step
//! has failed.

use vstd::prelude::*;
use crate::command::{script, Step, StepView};
use crate::error::{Violation, WorkflowError};
use crate::protocol::{Reply, ReplyView};

verus! {

/// How far a script has been carried out.
#[derive(Clone, Copy, Debug, PartialEq, Eq, Structural)]
pub struct Cursor {
    /// How many steps were handed out.
    pub position: usize,
    /// Why the script was given up, once it was.
    pub failure: Option<WorkflowError>,
}

/// What is to be done next with a script.
#[derive(Clone, Copy, Debug, PartialEq, Eq, Structural)]
pub enum Progress {
    /// Carry out the step at this index.
    Perform(usize),
    /// Every step was carried out.
    Finish,
    /// The script is given up.
    Abort(WorkflowError),
}

/// Whether `reply` is how a step of this kind ends when it goes well.
pub open spec fn answers(step: StepView, reply: ReplyView) -> bool {
    match step {
        StepView::Submit { .. } => reply is Submitted,
        StepView::Enact { .. } => reply is Submitted,
        StepView::Wait { .. } => reply is Elapsed,
    }
}

/// Whether `reply` is what the cursor waits for: the start signal before
/// the first step, and after that the good end of the step handed out
/// last.
pub open spec fn awaited(cursor: Cursor, plan: Seq<StepView>, reply: ReplyView) -> bool {
    if cursor.position == 0 {
        reply is Begin
    } else {
        answers(plan[cursor.position - 1], reply)
    }
}

/// The script is given up for `e`.
pub open spec fn given_up(cursor: Cursor, e: WorkflowError) -> (Cursor, Progress) {
    (Cursor { failure: Some(e), ..cursor }, Progress::Abort(e))
}

/// Where the script stands after `reply`, and what is to be done next.
/// A script that was given up stays given up. A failed step gives it up,
/// and so does a reply that is not awaited. Else the next step is handed
/// out, or the script is finished.
pub open spec fn resumed(cursor: Cursor, plan: Seq<StepView>, reply: ReplyView) -> (Cursor, Progress) {
    match cursor.failure {
        Some(e) => (cursor, Progress::Abort(e)),
        None => if reply is Failed {
            given_up(cursor, WorkflowError::RemoteCommunicationFailure)
        } else if !awaited(cursor, plan, reply) {
            given_up(cursor, WorkflowError::InvariantViolation(Violation::UnexpectedReply))
        } else if cursor.position < plan.len() {
            (
                Cursor { position: (cursor.position + 1) as usize, ..cursor },
                Progress::Perform(cursor.position),
            )
        } else {
            (cursor, Progress::Finish)
        },
    }
}

impl Cursor {
    /// A cursor before the first step of a script.
    pub fn start() -> (cursor: Cursor)
        ensures
            cursor.position == 0,
            cursor.failure is None,
    {
        Cursor { position: 0, failure: None }
    }

    /// Moves on in `plan` after the reply to what was handed out last.
    pub fn resume(self, plan: &Vec<Step>, reply: &Reply) -> (r: (Cursor, Progress))
        requires
            self.position <= plan.len(),
        ensures
            r == resumed(self, script(plan@), reply@),
            r.0.position <= plan.len(),
            r.1 matches Progress::Perform(k) ==> k == self.position && k < plan.len(),
    {
        if let Some(e) = self.failure {
            return (self, Progress::Abort(e));
        }
        if let Reply::Failed = reply {
            let e: WorkflowError = WorkflowError::RemoteCommunicationFailure;
            return (Cursor { position: self.position, failure: Some(e) }, Progress::Abort(e));
        }
        let awaited: bool = if self.position == 0 {
            match reply {
                Reply::Begin => true,
                _ => false,
            }
        } else {
            match &plan[self.position - 1] {
                Step::Wait { .. } => match reply {
                    Reply::Elapsed => true,
                    _ => false,
                },
                _ => match reply {
                    Reply::Submitted => true,
                    _ => false,
                },
            }
        };
        if !awaited {
            let e: WorkflowError = WorkflowError::InvariantViolation(Violation::UnexpectedReply);
            return (Cursor { position: self.position, failure: Some(e) }, Progress::Abort(e));
        }
        if self.position < plan.len() {
            (Cursor { position: self.position + 1, failure: None }, Progress::Perform(self.position))
        } else {
            (self, Progress::Finish)
        }
    }
}

/// The steps of a script are handed out in their order, each once: the
/// step handed out is the one at the cursor, and the cursor then stands
/// one further. Once a script is given up no step is handed out again.
pub proof fn lemma_steps_in_order(cursor: Cursor, plan: Seq<StepView>, reply: ReplyView)
    requires
        plan.len() <= usize::MAX,
    ensures
        resumed(cursor, plan, reply).1 matches Progress::Perform(k) ==> k == cursor.position
            && resumed(cursor, plan, reply).0.position == k + 1 && cursor.failure is None,
        cursor.failure is Some ==> resumed(cursor, plan, reply) == (
            cursor,
            Progress::Abort(cursor.failure->Some_0),
        ),
        resumed(cursor, plan, reply).1 is Abort ==> resumed(cursor, plan, reply).0.failure is Some,
        resumed(cursor, plan, reply).1 is Finish ==> cursor.position >= plan.len(),
{
}

} // verus!
