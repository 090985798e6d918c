//! The closed set of remote calls the workflows make, and the steps of a
//! script: submit a call under some signer, or wait.

use vstd::prelude::*;
use crate::address::{AccountAddress, ContentHash};
use crate::democracy::Vote;

verus! {

/// Which standing in the election an account gives up.
#[derive(Clone, Copy, Debug, PartialEq, Eq, Structural)]
pub enum Renouncing {
    /// An elected seat.
    Member,
    /// A runner-up place.
    RunnerUp,
    /// A candidacy, with the number of candidates as witness.
    Candidate(u32),
}

/// A call that is not submitted by itself: it is encoded, hashed, noted as
/// a preimage or wrapped in a council motion.
#[derive(Clone, Copy, Debug, PartialEq, Eq)]
pub enum Proposal {
    /// Replace the runtime code with the upgrade payload.
    SetCode,
    /// Approve a treasury spend proposal.
    ApproveProposal { proposal_id: u32 },
    /// Table a referendum, decided by simple majority, on the preimage
    /// with this hash.
    ExternalProposeMajority { proposal_hash: ContentHash },
}

/// A remote call, carrying only the fields that it needs.
#[derive(Clone, Debug, PartialEq, Eq)]
pub enum Call {
    /// Set an account's free and reserved balance. Only a privileged
    /// origin may do so.
    SetBalance { who: AccountAddress, new_free: u128, new_reserved: u128 },
    Transfer { dest: AccountAddress, value: u128 },
    /// Lock stake, rewards paid to the `payee` account.
    Bond { controller: AccountAddress, value: u128, payee: AccountAddress },
    Nominate { targets: Vec<AccountAddress> },
    RenounceCandidacy { renouncing: Renouncing },
    SubmitCandidacy { candidate_count: u32 },
    ElectionVote { votes: Vec<AccountAddress>, value: u128 },
    ProposeSpend { value: u128, beneficiary: AccountAddress },
    NotePreimage { encoded_proposal: Vec<u8> },
    CouncilPropose { threshold: u32, proposal: Proposal, length_bound: u32 },
    CouncilVote { proposal_hash: ContentHash, index: u32, approve: bool },
    CouncilClose {
        proposal_hash: ContentHash,
        index: u32,
        proposal_weight_bound: u64,
        length_bound: u32,
    },
    DemocracyPropose { proposal_hash: ContentHash, value: u128 },
    DemocracyVote { ref_index: u32, vote: Vote, balance: u128 },
}

/// What a [`Call`] holds, with sequences in place of vectors.
pub enum CallView {
    SetBalance { who: AccountAddress, new_free: u128, new_reserved: u128 },
    Transfer { dest: AccountAddress, value: u128 },
    Bond { controller: AccountAddress, value: u128, payee: AccountAddress },
    Nominate { targets: Seq<AccountAddress> },
    RenounceCandidacy { renouncing: Renouncing },
    SubmitCandidacy { candidate_count: u32 },
    ElectionVote { votes: Seq<AccountAddress>, value: u128 },
    ProposeSpend { value: u128, beneficiary: AccountAddress },
    NotePreimage { encoded_proposal: Seq<u8> },
    CouncilPropose { threshold: u32, proposal: Proposal, length_bound: u32 },
    CouncilVote { proposal_hash: ContentHash, index: u32, approve: bool },
    CouncilClose {
        proposal_hash: ContentHash,
        index: u32,
        proposal_weight_bound: u64,
        length_bound: u32,
    },
    DemocracyPropose { proposal_hash: ContentHash, value: u128 },
    DemocracyVote { ref_index: u32, vote: Vote, balance: u128 },
}

impl View for Call {
    type V = CallView;

    open spec fn view(&self) -> CallView {
        match *self {
            Call::SetBalance { who, new_free, new_reserved } => CallView::SetBalance {
                who,
                new_free,
                new_reserved,
            },
            Call::Transfer { dest, value } => CallView::Transfer { dest, value },
            Call::Bond { controller, value, payee } => CallView::Bond { controller, value, payee },
            Call::Nominate { targets } => CallView::Nominate { targets: targets@ },
            Call::RenounceCandidacy { renouncing } => CallView::RenounceCandidacy { renouncing },
            Call::SubmitCandidacy { candidate_count } => CallView::SubmitCandidacy {
                candidate_count,
            },
            Call::ElectionVote { votes, value } => CallView::ElectionVote { votes: votes@, value },
            Call::ProposeSpend { value, beneficiary } => CallView::ProposeSpend {
                value,
                beneficiary,
            },
            Call::NotePreimage { encoded_proposal } => CallView::NotePreimage {
                encoded_proposal: encoded_proposal@,
            },
            Call::CouncilPropose { threshold, proposal, length_bound } => CallView::CouncilPropose {
                threshold,
                proposal,
                length_bound,
            },
            Call::CouncilVote { proposal_hash, index, approve } => CallView::CouncilVote {
                proposal_hash,
                index,
                approve,
            },
            Call::CouncilClose {
                proposal_hash,
                index,
                proposal_weight_bound,
                length_bound,
            } => CallView::CouncilClose {
                proposal_hash,
                index,
                proposal_weight_bound,
                length_bound,
            },
            Call::DemocracyPropose { proposal_hash, value } => CallView::DemocracyPropose {
                proposal_hash,
                value,
            },
            Call::DemocracyVote { ref_index, vote, balance } => CallView::DemocracyVote {
                ref_index,
                vote,
                balance,
            },
        }
    }
}

/// Who signs a submission.
#[derive(Clone, Copy, Debug, PartialEq, Eq, Structural)]
pub enum Signer {
    /// The privileged account that funds the others.
    Sponsor,
    /// The test account at this index of the population.
    Account(usize),
}

/// One step of a script. Steps are carried out one after the other, each
/// awaited before the next begins.
#[derive(Clone, Debug, PartialEq, Eq)]
pub enum Step {
    /// Sign `call` as `signer`, submit it and await its inclusion.
    Submit { signer: Signer, call: Call },
    /// Have the sponsor carry out `call` with privilege, and await that
    /// it is finalized and acknowledged.
    Enact { call: Call },
    /// Let a fixed time pass.
    Wait { seconds: u64 },
}

/// What a [`Step`] holds, with sequences in place of vectors.
pub enum StepView {
    Submit { signer: Signer, call: CallView },
    Enact { call: CallView },
    Wait { seconds: u64 },
}

impl View for Step {
    type V = StepView;

    open spec fn view(&self) -> StepView {
        match *self {
            Step::Submit { signer, call } => StepView::Submit { signer, call: call@ },
            Step::Enact { call } => StepView::Enact { call: call@ },
            Step::Wait { seconds } => StepView::Wait { seconds },
        }
    }
}

/// The views of the steps of a script, in order.
pub open spec fn script(steps: Seq<Step>) -> Seq<StepView> {
    steps.map_values(|s: Step| s@)
}

/// A submission by the test account at `index`.
pub open spec fn submit_as(index: int, call: CallView) -> StepView {
    StepView::Submit { signer: Signer::Account(index as usize), call }
}

/// Appends a step to a script.
pub fn push_step(steps: &mut Vec<Step>, step: Step)
    ensures
        script(final(steps)@) == script(old(steps)@).push(step@),
        final(steps)@.len() == old(steps)@.len() + 1,
{
    steps.push(step);
}

/// Appends to a script the submission of `call` by the test account at
/// `index`.
pub fn push_submit(steps: &mut Vec<Step>, index: usize, call: Call)
    ensures
        script(final(steps)@) == script(old(steps)@).push(submit_as(index as int, call@)),
        final(steps)@.len() == old(steps)@.len() + 1,
{
    push_step(steps, Step::Submit { signer: Signer::Account(index), call });
}

/// Appends a wait to a script.
pub fn push_wait(steps: &mut Vec<Step>, seconds: u64)
    ensures
        script(final(steps)@) == script(old(steps)@).push(StepView::Wait { seconds }),
        final(steps)@.len() == old(steps)@.len() + 1,
{
    push_step(steps, Step::Wait { seconds });
}

/// Every submission of the script is signed by the sponsor or by a test
/// account whose index is below `population`.
pub open spec fn signers_within(steps: Seq<StepView>, population: int) -> bool {
    forall|i: int|
        0 <= i < steps.len() ==> match #[trigger] steps[i] {
            StepView::Submit { signer: Signer::Account(k), .. } => k < population,
            _ => true,
        }
}

} // verus!
