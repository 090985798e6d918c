//! The ways a run can end early.

use vstd::prelude::*;
use crate::protocol::Counter;

verus! {

/// What was found wrong with the remote state or with the run itself.
#[derive(Clone, Copy, Debug, PartialEq, Eq, Structural)]
pub enum Violation {
    /// The council has no member, so no motion can be proposed.
    CouncilEmpty,
    /// The council has fewer members than are to give up their seats.
    TooFewMembers,
    /// This counter shows nothing right after an item of its kind was
    /// created.
    ProposalNotRegistered(Counter),
    /// A proposal counter did not advance by exactly one.
    WatermarkMismatch,
    /// A secret URI was refused when an identity was derived from it.
    SeedRejected,
    /// Two test accounts came out with one address.
    AddressCollision,
    /// A reply does not answer the request that was pending.
    UnexpectedReply,
}

/// Every failure is fatal: nothing is retried and nothing is rolled back.
#[derive(Clone, Copy, Debug, PartialEq, Eq, Structural)]
pub enum WorkflowError {
    /// The transport failed to submit or to fetch.
    RemoteCommunicationFailure,
    /// The remote state contradicts what the workflow relies on.
    InvariantViolation(Violation),
    /// An address read from the chain belongs to none of the test accounts.
    MissingIdentityMapping,
}

impl WorkflowError {
    /// The text that a failure is reported with.
    pub open spec fn message_of(self) -> Seq<char> {
        match self {
            WorkflowError::RemoteCommunicationFailure => "ERROR: The node could not be reached"@,
            WorkflowError::MissingIdentityMapping => "ERROR: A councillor is none of the test accounts"@,
            WorkflowError::InvariantViolation(violation) => match violation {
                Violation::CouncilEmpty => "The council has not been setup."@,
                Violation::TooFewMembers => "ERROR: The council has fewer than three members"@,
                Violation::ProposalNotRegistered(Counter::TreasuryProposals) => "ERROR: Treasury proposal incorrectly registered"@,
                Violation::ProposalNotRegistered(Counter::CouncilProposals) => "ERROR: Council motion incorrectly registered"@,
                Violation::ProposalNotRegistered(Counter::Referenda) => "ERROR: Democracy proposal incorrectly registered"@,
                Violation::WatermarkMismatch => "ERROR: Proposal counter did not advance by one"@,
                Violation::SeedRejected => "ERROR: A secret URI was refused"@,
                Violation::AddressCollision => "ERROR: Two test accounts share an address"@,
                Violation::UnexpectedReply => "ERROR: A reply does not answer the pending request"@,
            },
        }
    }

    /// Gives the text that a failure is reported with.
    pub fn message(&self) -> (text: &'static str)
        ensures
            text@ == self.message_of(),
    {
        match self {
            WorkflowError::RemoteCommunicationFailure => "ERROR: The node could not be reached",
            WorkflowError::MissingIdentityMapping => "ERROR: A councillor is none of the test accounts",
            WorkflowError::InvariantViolation(violation) => match violation {
                Violation::CouncilEmpty => "The council has not been setup.",
                Violation::TooFewMembers => "ERROR: The council has fewer than three members",
                Violation::ProposalNotRegistered(Counter::TreasuryProposals) => "ERROR: Treasury proposal incorrectly registered",
                Violation::ProposalNotRegistered(Counter::CouncilProposals) => "ERROR: Council motion incorrectly registered",
                Violation::ProposalNotRegistered(Counter::Referenda) => "ERROR: Democracy proposal incorrectly registered",
                Violation::WatermarkMismatch => "ERROR: Proposal counter did not advance by one",
                Violation::SeedRejected => "ERROR: A secret URI was refused",
                Violation::AddressCollision => "ERROR: Two test accounts share an address",
                Violation::UnexpectedReply => "ERROR: A reply does not answer the pending request",
            },
        }
    }
}

} // verus!
