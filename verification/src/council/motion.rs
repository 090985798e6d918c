//! The external-majority motion: the council approves a treasury spend
//! by way of a referendum that it tables itself. Each step depends on
//! what the chain answered to the one before, so the workflow is a state
//! machine: it is handed the reply to its last directive and gives the
//! next one.

use vstd::prelude::*;
use crate::account::{addresses_of, find_account, TestAccount};
use crate::address::{blank, AccountAddress, ContentHash};
use crate::command::{submit_as, Call, CallView, Proposal, Signer, Step, StepView};
use crate::error::{Violation, WorkflowError};
use crate::hashing::{content_hash, hash_of};
use crate::protocol::{Counter, Directive, DirectiveView, Reply, ReplyView};
use crate::settings::{
    Settings, ENACTMENT_SECONDS, MOTION_LENGTH_BOUND, MOTION_THRESHOLD, SPEND_PROPOSER,
};
use crate::watermark::{discover_index, discovered, motion_index, newest_or_first};

verus! {

/// What the workflow is waiting for.
#[derive(Clone, Copy, Debug, PartialEq, Eq, Structural)]
pub enum Pending {
    /// Nothing yet: the workflow has not begun.
    Nothing,
    /// The council members.
    Members,
    /// The treasury's proposal counter, before the spend is proposed.
    CountBefore,
    /// The submission of the spend proposal.
    SpendSubmitted,
    /// The inclusion of the spend proposal.
    SpendIncluded,
    /// The treasury's proposal counter, after the spend was proposed.
    CountAfter,
    /// The encoded approval of the spend, which becomes the preimage.
    PreimageEncoded,
    /// The submission of the preimage.
    PreimageNoted,
    /// The encoded motion, for its hash.
    MotionEncoded,
    /// The submission of the motion.
    MotionSubmitted,
    /// The inclusion of the motion.
    MotionIncluded,
    /// The council's proposal counter.
    MotionCount,
    /// The submission of one member's vote.
    VoteSubmitted,
    /// The inclusion of the votes.
    VotesIncluded,
    /// The submission of the close.
    CloseSubmitted,
    /// The enactment of the closed motion.
    Enactment,
    /// Nothing more: the workflow is complete.
    Done,
    /// Nothing more: the workflow has failed.
    Failed,
}

impl Pending {
    /// The place of a stage in the order of the workflow.
    pub open spec fn ordinal(self) -> nat {
        match self {
            Pending::Nothing => 0,
            Pending::Members => 1,
            Pending::CountBefore => 2,
            Pending::SpendSubmitted => 3,
            Pending::SpendIncluded => 4,
            Pending::CountAfter => 5,
            Pending::PreimageEncoded => 6,
            Pending::PreimageNoted => 7,
            Pending::MotionEncoded => 8,
            Pending::MotionSubmitted => 9,
            Pending::MotionIncluded => 10,
            Pending::MotionCount => 11,
            Pending::VoteSubmitted => 12,
            Pending::VotesIncluded => 13,
            Pending::CloseSubmitted => 14,
            Pending::Enactment => 15,
            Pending::Done => 16,
            Pending::Failed => 16,
        }
    }

    /// Whether the workflow has ended at this stage.
    pub open spec fn terminal(self) -> bool {
        self == Pending::Done || self == Pending::Failed
    }
}

/// The state of the workflow between two directives.
#[derive(Clone, Debug, PartialEq, Eq)]
pub struct Motion {
    pub pending: Pending,
    /// The council, as it was read at the start.
    pub members: Vec<AccountAddress>,
    /// The treasury's proposal counter before the spend was proposed.
    pub before: Option<u32>,
    /// The hash of the noted preimage.
    pub preimage_hash: ContentHash,
    /// The hash by which the council knows the motion.
    pub motion_hash: ContentHash,
    /// The index that the council gave the motion.
    pub motion_index: u32,
    /// The member whose vote was submitted last.
    pub cursor: usize,
    /// Why the workflow failed, once it has.
    pub failure: Option<WorkflowError>,
}

/// What a [`Motion`] holds, with sequences in place of vectors.
pub struct MotionView {
    pub pending: Pending,
    pub members: Seq<AccountAddress>,
    pub before: Option<u32>,
    pub preimage_hash: ContentHash,
    pub motion_hash: ContentHash,
    pub motion_index: u32,
    pub cursor: usize,
    pub failure: Option<WorkflowError>,
}

impl View for Motion {
    type V = MotionView;

    open spec fn view(&self) -> MotionView {
        MotionView {
            pending: self.pending,
            members: self.members@,
            before: self.before,
            preimage_hash: self.preimage_hash,
            motion_hash: self.motion_hash,
            motion_index: self.motion_index,
            cursor: self.cursor,
            failure: self.failure,
        }
    }
}

impl MotionView {
    /// Once the members are known there is at least one; while votes
    /// are cast the cursor points at a member; and a failed workflow
    /// knows why it failed.
    pub open spec fn wf(self) -> bool {
        &&& 2 <= self.pending.ordinal() <= 15 ==> self.members.len() > 0
        &&& self.pending == Pending::VoteSubmitted ==> self.cursor < self.members.len()
        &&& self.pending == Pending::Failed ==> self.failure is Some
    }

    /// Why the workflow failed.
    pub open spec fn cause(self) -> WorkflowError {
        match self.failure {
            Some(e) => e,
            None => WorkflowError::InvariantViolation(Violation::UnexpectedReply),
        }
    }

    /// The state before anything was done: nothing is pending, nothing
    /// is known, and the hashes are blank.
    pub open spec fn fresh(self) -> bool {
        &&& self.pending == Pending::Nothing
        &&& self.members.len() == 0
        &&& self.before is None
        &&& self.preimage_hash@ == blank()
        &&& self.motion_hash@ == blank()
        &&& self.motion_index == 0
        &&& self.cursor == 0
        &&& self.failure is None
    }
}

/// The workflow fails for good.
pub open spec fn failed(m: MotionView, e: WorkflowError) -> (MotionView, DirectiveView) {
    (MotionView { pending: Pending::Failed, failure: Some(e), ..m }, DirectiveView::Abort(e))
}

/// The workflow moves on to wait for the outcome of `directive`.
pub open spec fn moved(m: MotionView, pending: Pending, directive: DirectiveView) -> (
    MotionView,
    DirectiveView,
) {
    (MotionView { pending, ..m }, directive)
}

/// The workflow has `call` submitted under the test account that owns
/// the address of the council member at `k`, or fails if none does.
pub open spec fn member_submits(
    addresses: Seq<AccountAddress>,
    m: MotionView,
    k: int,
    pending: Pending,
    call: CallView,
) -> (MotionView, DirectiveView) {
    match addresses.index_of_first(m.members[k]) {
        Some(p) => moved(m, pending, DirectiveView::Perform(submit_as(p, call))),
        None => failed(m, WorkflowError::MissingIdentityMapping),
    }
}

/// The vote of the member at `k` on the motion: always aye.
pub open spec fn member_votes(addresses: Seq<AccountAddress>, m: MotionView, k: int) -> (
    MotionView,
    DirectiveView,
) {
    member_submits(
        addresses,
        MotionView { cursor: k as usize, ..m },
        k,
        Pending::VoteSubmitted,
        CallView::CouncilVote { proposal_hash: m.motion_hash, index: m.motion_index, approve: true },
    )
}

/// The transition of the workflow: from a state and the reply to the
/// pending directive, to the next state and the next directive. `digest`
/// is the content hash of the bytes that an `Encoded` reply carries.
pub open spec fn next_with(
    s: Settings,
    addresses: Seq<AccountAddress>,
    m: MotionView,
    reply: ReplyView,
    digest: ContentHash,
) -> (MotionView, DirectiveView) {
    match (m.pending, reply) {
        (Pending::Done, _) => (m, DirectiveView::Finish),
        (Pending::Failed, _) => (m, DirectiveView::Abort(m.cause())),
        (_, ReplyView::Failed) => failed(m, WorkflowError::RemoteCommunicationFailure),
        (Pending::Nothing, ReplyView::Begin) => moved(
            m,
            Pending::Members,
            DirectiveView::FetchMembers,
        ),
        (Pending::Members, ReplyView::Members(members)) => if members.len() == 0 {
            failed(m, WorkflowError::InvariantViolation(Violation::CouncilEmpty))
        } else {
            moved(
                MotionView { members, ..m },
                Pending::CountBefore,
                DirectiveView::FetchCounter(Counter::TreasuryProposals),
            )
        },
        (Pending::CountBefore, ReplyView::Counter(reading)) => moved(
            MotionView { before: reading, ..m },
            Pending::SpendSubmitted,
            DirectiveView::Perform(
                submit_as(
                    SPEND_PROPOSER as int,
                    CallView::ProposeSpend {
                        value: s.test_account_funding,
                        beneficiary: addresses[0],
                    },
                ),
            ),
        ),
        (Pending::SpendSubmitted, ReplyView::Submitted) => moved(
            m,
            Pending::SpendIncluded,
            DirectiveView::Perform(StepView::Wait { seconds: s.block_inclusion_lag }),
        ),
        (Pending::SpendIncluded, ReplyView::Elapsed) => moved(
            m,
            Pending::CountAfter,
            DirectiveView::FetchCounter(Counter::TreasuryProposals),
        ),
        (Pending::CountAfter, ReplyView::Counter(reading)) => match discovered(
            Counter::TreasuryProposals,
            m.before,
            reading,
        ) {
            Ok(index) => moved(
                m,
                Pending::PreimageEncoded,
                DirectiveView::Encode(Proposal::ApproveProposal { proposal_id: index }),
            ),
            Err(e) => failed(m, e),
        },
        (Pending::PreimageEncoded, ReplyView::Encoded(bytes)) => moved(
            MotionView { preimage_hash: digest, ..m },
            Pending::PreimageNoted,
            DirectiveView::Perform(
                submit_as(SPEND_PROPOSER as int, CallView::NotePreimage { encoded_proposal: bytes }),
            ),
        ),
        (Pending::PreimageNoted, ReplyView::Submitted) => moved(
            m,
            Pending::MotionEncoded,
            DirectiveView::Encode(
                Proposal::ExternalProposeMajority { proposal_hash: m.preimage_hash },
            ),
        ),
        (Pending::MotionEncoded, ReplyView::Encoded(bytes)) => member_submits(
            addresses,
            MotionView { motion_hash: digest, ..m },
            0,
            Pending::MotionSubmitted,
            CallView::CouncilPropose {
                threshold: MOTION_THRESHOLD,
                proposal: Proposal::ExternalProposeMajority { proposal_hash: m.preimage_hash },
                length_bound: MOTION_LENGTH_BOUND,
            },
        ),
        (Pending::MotionSubmitted, ReplyView::Submitted) => moved(
            m,
            Pending::MotionIncluded,
            DirectiveView::Perform(StepView::Wait { seconds: s.block_inclusion_lag }),
        ),
        (Pending::MotionIncluded, ReplyView::Elapsed) => moved(
            m,
            Pending::MotionCount,
            DirectiveView::FetchCounter(Counter::CouncilProposals),
        ),
        (Pending::MotionCount, ReplyView::Counter(reading)) => match newest_or_first(
            Counter::CouncilProposals,
            reading,
        ) {
            Ok(index) => member_votes(addresses, MotionView { motion_index: index, ..m }, 0),
            Err(e) => failed(m, e),
        },
        (Pending::VoteSubmitted, ReplyView::Submitted) => if m.cursor + 1 < m.members.len() {
            member_votes(addresses, m, m.cursor + 1)
        } else {
            moved(
                m,
                Pending::VotesIncluded,
                DirectiveView::Perform(StepView::Wait { seconds: s.block_inclusion_lag }),
            )
        },
        (Pending::VotesIncluded, ReplyView::Elapsed) => member_submits(
            addresses,
            m,
            0,
            Pending::CloseSubmitted,
            CallView::CouncilClose {
                proposal_hash: m.motion_hash,
                index: m.motion_index,
                proposal_weight_bound: s.weight_bound,
                length_bound: s.length_bound,
            },
        ),
        (Pending::CloseSubmitted, ReplyView::Submitted) => moved(
            m,
            Pending::Enactment,
            DirectiveView::Perform(
                StepView::Wait { seconds: (ENACTMENT_SECONDS + s.block_inclusion_lag) as u64 },
            ),
        ),
        (Pending::Enactment, ReplyView::Elapsed) => moved(m, Pending::Done, DirectiveView::Finish),
        _ => failed(m, WorkflowError::InvariantViolation(Violation::UnexpectedReply)),
    }
}

/// The transition of the workflow, with the content hash taken of the
/// bytes that an `Encoded` reply carries.
pub open spec fn next(s: Settings, addresses: Seq<AccountAddress>, m: MotionView, reply: ReplyView) -> (
    MotionView,
    DirectiveView,
) {
    match reply {
        ReplyView::Encoded(bytes) => next_with(s, addresses, m, reply, hash_of(bytes)),
        _ => next_with(s, addresses, m, reply, m.motion_hash),
    }
}

/// A submission that a directive asks for is signed by a test account of
/// a population of `population` accounts.
pub open spec fn signer_within(directive: DirectiveView, population: int) -> bool {
    match directive {
        DirectiveView::Perform(StepView::Submit { signer, .. }) => signer matches Signer::Account(k)
            && k < population,
        _ => true,
    }
}

/// The workflow has come closer to its end: it has ended, or it waits at
/// a later stage, or it waits for the vote of a later member.
pub open spec fn advanced(earlier: MotionView, later: MotionView) -> bool {
    ||| later.pending.terminal()
    ||| earlier.pending.ordinal() < later.pending.ordinal()
    ||| (earlier.pending == Pending::VoteSubmitted && later.pending == Pending::VoteSubmitted
        && later.members == earlier.members && earlier.cursor < later.cursor
        < later.members.len())
}

impl Motion {
    /// The workflow before anything was done.
    pub fn new() -> (m: Motion)
        ensures
            m@.fresh(),
            m@.wf(),
    {
        Motion {
            pending: Pending::Nothing,
            members: Vec::new(),
            before: None,
            preimage_hash: ContentHash::blank(),
            motion_hash: ContentHash::blank(),
            motion_index: 0,
            cursor: 0,
            failure: None,
        }
    }
}

fn fail(state: Motion, e: WorkflowError) -> (r: (Motion, Directive))
    ensures
        (r.0@, r.1@) == failed(state@, e),
{
    (Motion { pending: Pending::Failed, failure: Some(e), ..state }, Directive::Abort(e))
}

fn proceed(state: Motion, pending: Pending, directive: Directive) -> (r: (Motion, Directive))
    ensures
        (r.0@, r.1@) == moved(state@, pending, directive@),
{
    (Motion { pending, ..state }, directive)
}

fn submit_for_member(
    accounts: &[TestAccount],
    state: Motion,
    k: usize,
    pending: Pending,
    call: Call,
) -> (r: (Motion, Directive))
    requires
        k < state.members.len(),
    ensures
        (r.0@, r.1@) == member_submits(addresses_of(accounts@), state@, k as int, pending, call@),
        signer_within(r.1@, accounts.len() as int),
{
    let who: AccountAddress = state.members[k];
    proof {
        addresses_of(accounts@).index_of_first_ensures(who);
    }
    match find_account(accounts, &who) {
        Some(p) => proceed(
            state,
            pending,
            Directive::Perform(Step::Submit { signer: Signer::Account(p), call }),
        ),
        None => fail(state, WorkflowError::MissingIdentityMapping),
    }
}

fn vote_for_member(accounts: &[TestAccount], state: Motion, k: usize) -> (r: (Motion, Directive))
    requires
        k < state.members.len(),
    ensures
        (r.0@, r.1@) == member_votes(addresses_of(accounts@), state@, k as int),
        signer_within(r.1@, accounts.len() as int),
{
    let call: Call = Call::CouncilVote {
        proposal_hash: state.motion_hash,
        index: state.motion_index,
        approve: true,
    };
    submit_for_member(accounts, Motion { cursor: k, ..state }, k, Pending::VoteSubmitted, call)
}

/// One transition of the workflow, with the content hash of an encoded
/// reply given.
pub fn transition(
    settings: &Settings,
    accounts: &[TestAccount],
    state: Motion,
    reply: Reply,
    digest: ContentHash,
) -> (r: (Motion, Directive))
    requires
        settings.wf(),
        accounts.len() > SPEND_PROPOSER,
        state@.wf(),
    ensures
        (r.0@, r.1@) == next_with(*settings, addresses_of(accounts@), state@, reply@, digest),
        r.0@.wf(),
        signer_within(r.1@, accounts.len() as int),
        !state@.pending.terminal() ==> advanced(state@, r.0@),
{
    let unexpected: WorkflowError = WorkflowError::InvariantViolation(Violation::UnexpectedReply);
    let ended: bool = match state.pending {
        Pending::Done => true,
        Pending::Failed => true,
        _ => false,
    };
    if !ended {
        if let Reply::Failed = reply {
            return fail(state, WorkflowError::RemoteCommunicationFailure);
        }
    }
    match state.pending {
        Pending::Nothing => match reply {
            Reply::Begin => proceed(state, Pending::Members, Directive::FetchMembers),
            _ => fail(state, unexpected),
        },
        Pending::Members => match reply {
            Reply::Members(members) => {
                if members.len() == 0 {
                    fail(state, WorkflowError::InvariantViolation(Violation::CouncilEmpty))
                } else {
                    proceed(
                        Motion { members, ..state },
                        Pending::CountBefore,
                        Directive::FetchCounter(Counter::TreasuryProposals),
                    )
                }
            },
            _ => fail(state, unexpected),
        },
        Pending::CountBefore => match reply {
            Reply::Counter(reading) => {
                let call: Call = Call::ProposeSpend {
                    value: settings.test_account_funding,
                    beneficiary: accounts[0].address,
                };
                proceed(
                    Motion { before: reading, ..state },
                    Pending::SpendSubmitted,
                    Directive::Perform(
                        Step::Submit { signer: Signer::Account(SPEND_PROPOSER), call },
                    ),
                )
            },
            _ => fail(state, unexpected),
        },
        Pending::SpendSubmitted => match reply {
            Reply::Submitted => proceed(
                state,
                Pending::SpendIncluded,
                Directive::Perform(Step::Wait { seconds: settings.block_inclusion_lag }),
            ),
            _ => fail(state, unexpected),
        },
        Pending::SpendIncluded => match reply {
            Reply::Elapsed => proceed(
                state,
                Pending::CountAfter,
                Directive::FetchCounter(Counter::TreasuryProposals),
            ),
            _ => fail(state, unexpected),
        },
        Pending::CountAfter => match reply {
            Reply::Counter(reading) => match discover_index(
                Counter::TreasuryProposals,
                state.before,
                reading,
            ) {
                Ok(index) => proceed(
                    state,
                    Pending::PreimageEncoded,
                    Directive::Encode(Proposal::ApproveProposal { proposal_id: index }),
                ),
                Err(e) => fail(state, e),
            },
            _ => fail(state, unexpected),
        },
        Pending::PreimageEncoded => match reply {
            Reply::Encoded(bytes) => proceed(
                Motion { preimage_hash: digest, ..state },
                Pending::PreimageNoted,
                Directive::Perform(
                    Step::Submit {
                        signer: Signer::Account(SPEND_PROPOSER),
                        call: Call::NotePreimage { encoded_proposal: bytes },
                    },
                ),
            ),
            _ => fail(state, unexpected),
        },
        Pending::PreimageNoted => match reply {
            Reply::Submitted => {
                let proposal_hash: ContentHash = state.preimage_hash;
                proceed(
                    state,
                    Pending::MotionEncoded,
                    Directive::Encode(Proposal::ExternalProposeMajority { proposal_hash }),
                )
            },
            _ => fail(state, unexpected),
        },
        Pending::MotionEncoded => match reply {
            Reply::Encoded(_) => {
                let call: Call = Call::CouncilPropose {
                    threshold: MOTION_THRESHOLD,
                    proposal: Proposal::ExternalProposeMajority {
                        proposal_hash: state.preimage_hash,
                    },
                    length_bound: MOTION_LENGTH_BOUND,
                };
                submit_for_member(
                    accounts,
                    Motion { motion_hash: digest, ..state },
                    0,
                    Pending::MotionSubmitted,
                    call,
                )
            },
            _ => fail(state, unexpected),
        },
        Pending::MotionSubmitted => match reply {
            Reply::Submitted => proceed(
                state,
                Pending::MotionIncluded,
                Directive::Perform(Step::Wait { seconds: settings.block_inclusion_lag }),
            ),
            _ => fail(state, unexpected),
        },
        Pending::MotionIncluded => match reply {
            Reply::Elapsed => proceed(
                state,
                Pending::MotionCount,
                Directive::FetchCounter(Counter::CouncilProposals),
            ),
            _ => fail(state, unexpected),
        },
        Pending::MotionCount => match reply {
            Reply::Counter(reading) => match motion_index(reading) {
                Ok(index) => vote_for_member(accounts, Motion { motion_index: index, ..state }, 0),
                Err(e) => fail(state, e),
            },
            _ => fail(state, unexpected),
        },
        Pending::VoteSubmitted => match reply {
            Reply::Submitted => {
                assert(state.cursor < state.members.len());
                if state.cursor + 1 < state.members.len() {
                    let k: usize = state.cursor + 1;
                    vote_for_member(accounts, state, k)
                } else {
                    proceed(
                        state,
                        Pending::VotesIncluded,
                        Directive::Perform(Step::Wait { seconds: settings.block_inclusion_lag }),
                    )
                }
            },
            _ => fail(state, unexpected),
        },
        Pending::VotesIncluded => match reply {
            Reply::Elapsed => {
                let call: Call = Call::CouncilClose {
                    proposal_hash: state.motion_hash,
                    index: state.motion_index,
                    proposal_weight_bound: settings.weight_bound,
                    length_bound: settings.length_bound,
                };
                submit_for_member(accounts, state, 0, Pending::CloseSubmitted, call)
            },
            _ => fail(state, unexpected),
        },
        Pending::CloseSubmitted => match reply {
            Reply::Submitted => proceed(
                state,
                Pending::Enactment,
                Directive::Perform(
                    Step::Wait { seconds: ENACTMENT_SECONDS + settings.block_inclusion_lag },
                ),
            ),
            _ => fail(state, unexpected),
        },
        Pending::Enactment => match reply {
            Reply::Elapsed => proceed(state, Pending::Done, Directive::Finish),
            _ => fail(state, unexpected),
        },
        Pending::Done => (state, Directive::Finish),
        Pending::Failed => {
            let e: WorkflowError = match state.failure {
                Some(e) => e,
                None => unexpected,
            };
            (state, Directive::Abort(e))
        },
    }
}

/// Drives the external-majority motion one step further: takes the
/// reply to the directive that was pending and gives the next directive.
/// The bytes of an `Encoded` reply are hashed here; everything else is
/// decided by [`transition`].
pub fn external_majority_workflow(
    settings: &Settings,
    accounts: &[TestAccount],
    state: Motion,
    reply: Reply,
) -> (r: (Motion, Directive))
    requires
        settings.wf(),
        accounts.len() > SPEND_PROPOSER,
        state@.wf(),
    ensures
        (r.0@, r.1@) == next(*settings, addresses_of(accounts@), state@, reply@),
        r.0@.wf(),
        signer_within(r.1@, accounts.len() as int),
        !state@.pending.terminal() ==> advanced(state@, r.0@),
{
    let digest: ContentHash = match &reply {
        Reply::Encoded(bytes) => content_hash(bytes.as_slice()),
        _ => state.motion_hash,
    };
    transition(settings, accounts, state, reply, digest)
}

} // verus!
