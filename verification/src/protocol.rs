//! What passes between a workflow that decides and the runner that acts:
//! the workflow hands out a directive, the runner carries it out against
//! the chain and hands back a reply.

use vstd::prelude::*;
use crate::address::AccountAddress;
use crate::command::{Proposal, Step, StepView};
use crate::error::WorkflowError;

verus! {

/// A counter of the chain that tells how many items of a kind were ever
/// created. It is absent until the first one is.
#[derive(Clone, Copy, Debug, PartialEq, Eq, Structural)]
pub enum Counter {
    TreasuryProposals,
    CouncilProposals,
    Referenda,
}

/// What the runner is to do next.
#[derive(Clone, Debug, PartialEq, Eq)]
pub enum Directive {
    /// Fetch the current council members; answered by [`Reply::Members`].
    FetchMembers,
    /// Fetch a counter; answered by [`Reply::Counter`].
    FetchCounter(Counter),
    /// Encode a call for the chain; answered by [`Reply::Encoded`].
    Encode(Proposal),
    /// Carry out a step; a submission is answered by [`Reply::Submitted`],
    /// a wait by [`Reply::Elapsed`].
    Perform(Step),
    /// The workflow is complete.
    Finish,
    /// The workflow has failed for good.
    Abort(WorkflowError),
}

/// What a [`Directive`] holds, with sequences in place of vectors.
pub enum DirectiveView {
    FetchMembers,
    FetchCounter(Counter),
    Encode(Proposal),
    Perform(StepView),
    Finish,
    Abort(WorkflowError),
}

impl View for Directive {
    type V = DirectiveView;

    open spec fn view(&self) -> DirectiveView {
        match *self {
            Directive::FetchMembers => DirectiveView::FetchMembers,
            Directive::FetchCounter(c) => DirectiveView::FetchCounter(c),
            Directive::Encode(p) => DirectiveView::Encode(p),
            Directive::Perform(step) => DirectiveView::Perform(step@),
            Directive::Finish => DirectiveView::Finish,
            Directive::Abort(e) => DirectiveView::Abort(e),
        }
    }
}

/// What the runner found when it carried out the last directive.
#[derive(Clone, Debug, PartialEq, Eq)]
pub enum Reply {
    /// Nothing was asked yet: the workflow is to begin.
    Begin,
    Members(Vec<AccountAddress>),
    Counter(Option<u32>),
    Encoded(Vec<u8>),
    Submitted,
    Elapsed,
    /// The transport failed.
    Failed,
}

/// What a [`Reply`] holds, with sequences in place of vectors.
pub enum ReplyView {
    Begin,
    Members(Seq<AccountAddress>),
    Counter(Option<u32>),
    Encoded(Seq<u8>),
    Submitted,
    Elapsed,
    Failed,
}

impl View for Reply {
    type V = ReplyView;

    open spec fn view(&self) -> ReplyView {
        match *self {
            Reply::Begin => ReplyView::Begin,
            Reply::Members(members) => ReplyView::Members(members@),
            Reply::Counter(c) => ReplyView::Counter(c),
            Reply::Encoded(bytes) => ReplyView::Encoded(bytes@),
            Reply::Submitted => ReplyView::Submitted,
            Reply::Elapsed => ReplyView::Elapsed,
            Reply::Failed => ReplyView::Failed,
        }
    }
}

} // verus!
