//! The run as a whole: its phases in their fixed order, the funding of
//! the sponsor and of the test population, and the referendum index that
//! is carried from where it is discovered to where it is voted on.

use vstd::prelude::*;
use crate::account::{addresses_of, TestAccount};
use crate::address::AccountAddress;
use crate::command::{push_step, script, Call, CallView, Signer, Step, StepView};
use crate::error::{Violation, WorkflowError};
use crate::protocol::Counter;
use crate::settings::{
    Settings, ENACTMENT_SECONDS, SPONSOR_FREE_TOKENS, SPONSOR_RESERVED_TOKENS, UPGRADE_SECONDS,
};
use crate::watermark::{newest, referendum_index};

verus! {

/// The phases of a run. They follow each other in this order; a failure
/// in any of them ends the run.
#[derive(Clone, Copy, Debug, PartialEq, Eq, Structural)]
pub enum Phase {
    Init,
    FundSponsor,
    ProvisionAccounts,
    Stake,
    ElectCouncil,
    ProposeUpgrade,
    DiscoverReferendumIndex,
    SnapshotBefore,
    VoteApprove,
    SnapshotAfter,
    Reconcile,
    ExternalMajorityMotion,
    DiscoverSecondReferendumIndex,
    VoteReject,
    Terminal,
}

impl Phase {
    /// The place of a phase in the order of the run.
    pub open spec fn ordinal(self) -> nat {
        match self {
            Phase::Init => 0,
            Phase::FundSponsor => 1,
            Phase::ProvisionAccounts => 2,
            Phase::Stake => 3,
            Phase::ElectCouncil => 4,
            Phase::ProposeUpgrade => 5,
            Phase::DiscoverReferendumIndex => 6,
            Phase::SnapshotBefore => 7,
            Phase::VoteApprove => 8,
            Phase::SnapshotAfter => 9,
            Phase::Reconcile => 10,
            Phase::ExternalMajorityMotion => 11,
            Phase::DiscoverSecondReferendumIndex => 12,
            Phase::VoteReject => 13,
            Phase::Terminal => 14,
        }
    }

    /// Whether the phase reads the referendum counter.
    pub open spec fn discovers(self) -> bool {
        self == Phase::DiscoverReferendumIndex || self == Phase::DiscoverSecondReferendumIndex
    }

    /// The phase that follows; the last phase follows itself.
    pub open spec fn successor(self) -> Phase {
        match self {
            Phase::Init => Phase::FundSponsor,
            Phase::FundSponsor => Phase::ProvisionAccounts,
            Phase::ProvisionAccounts => Phase::Stake,
            Phase::Stake => Phase::ElectCouncil,
            Phase::ElectCouncil => Phase::ProposeUpgrade,
            Phase::ProposeUpgrade => Phase::DiscoverReferendumIndex,
            Phase::DiscoverReferendumIndex => Phase::SnapshotBefore,
            Phase::SnapshotBefore => Phase::VoteApprove,
            Phase::VoteApprove => Phase::SnapshotAfter,
            Phase::SnapshotAfter => Phase::Reconcile,
            Phase::Reconcile => Phase::ExternalMajorityMotion,
            Phase::ExternalMajorityMotion => Phase::DiscoverSecondReferendumIndex,
            Phase::DiscoverSecondReferendumIndex => Phase::VoteReject,
            Phase::VoteReject => Phase::Terminal,
            Phase::Terminal => Phase::Terminal,
        }
    }

    /// The seconds to let pass once the work of the phase is done: time
    /// for an enactment after a proposal or a motion, time for the
    /// upgrade after the approving vote.
    pub open spec fn settling(self, s: Settings) -> int {
        match self {
            Phase::ProposeUpgrade => ENACTMENT_SECONDS + s.block_inclusion_lag,
            Phase::VoteApprove => UPGRADE_SECONDS as int,
            Phase::ExternalMajorityMotion => ENACTMENT_SECONDS + s.block_inclusion_lag,
            _ => 0,
        }
    }

    /// Gives the phase that follows.
    pub fn next(self) -> (p: Phase)
        ensures
            p == self.successor(),
            self != Phase::Terminal ==> p.ordinal() == self.ordinal() + 1,
    {
        match self {
            Phase::Init => Phase::FundSponsor,
            Phase::FundSponsor => Phase::ProvisionAccounts,
            Phase::ProvisionAccounts => Phase::Stake,
            Phase::Stake => Phase::ElectCouncil,
            Phase::ElectCouncil => Phase::ProposeUpgrade,
            Phase::ProposeUpgrade => Phase::DiscoverReferendumIndex,
            Phase::DiscoverReferendumIndex => Phase::SnapshotBefore,
            Phase::SnapshotBefore => Phase::VoteApprove,
            Phase::VoteApprove => Phase::SnapshotAfter,
            Phase::SnapshotAfter => Phase::Reconcile,
            Phase::Reconcile => Phase::ExternalMajorityMotion,
            Phase::ExternalMajorityMotion => Phase::DiscoverSecondReferendumIndex,
            Phase::DiscoverSecondReferendumIndex => Phase::VoteReject,
            Phase::VoteReject => Phase::Terminal,
            Phase::Terminal => Phase::Terminal,
        }
    }

    /// Gives the seconds to let pass once the work of the phase is done.
    pub fn settling_seconds(self, settings: &Settings) -> (seconds: u64)
        requires
            settings.wf(),
        ensures
            seconds == self.settling(*settings),
    {
        match self {
            Phase::ProposeUpgrade => ENACTMENT_SECONDS + settings.block_inclusion_lag,
            Phase::VoteApprove => UPGRADE_SECONDS,
            Phase::ExternalMajorityMotion => ENACTMENT_SECONDS + settings.block_inclusion_lag,
            _ => 0,
        }
    }
}

/// How the work of a phase ended.
#[derive(Clone, Copy, Debug, PartialEq, Eq, Structural)]
pub enum Outcome {
    /// The work was done.
    Completed,
    /// The referendum counter was read, with this result.
    Counter(Option<u32>),
    /// The work failed.
    Failed(WorkflowError),
}

/// Where a run stands: its phase, and the index of the referendum that
/// was discovered last.
#[derive(Clone, Copy, Debug, PartialEq, Eq, Structural)]
pub struct Orchestrator {
    pub phase: Phase,
    pub referendum: Option<u32>,
}

/// The failure reported when a phase ends in a way that is not its own.
pub open spec fn unexpected() -> WorkflowError {
    WorkflowError::InvariantViolation(Violation::UnexpectedReply)
}

impl Orchestrator {
    /// From the first phase that votes on, a referendum is known.
    pub open spec fn wf(self) -> bool {
        7 <= self.phase.ordinal() <= 13 && self.phase != Phase::DiscoverSecondReferendumIndex
            ==> self.referendum is Some
    }

    /// Where the run stands after a phase ended with `outcome`, or why
    /// it ends there. A discovering phase ends with a counter reading
    /// and leaves the index that the reading gives; every other phase
    /// ends completed and leaves the index as it was.
    pub open spec fn after(self, outcome: Outcome) -> Result<Orchestrator, WorkflowError> {
        if self.phase == Phase::Terminal {
            Ok(self)
        } else {
            match outcome {
                Outcome::Failed(e) => Err(e),
                Outcome::Counter(reading) => if self.phase.discovers() {
                    match newest(Counter::Referenda, reading) {
                        Ok(index) => Ok(
                            Orchestrator {
                                phase: self.phase.successor(),
                                referendum: Some(index),
                            },
                        ),
                        Err(e) => Err(e),
                    }
                } else {
                    Err(unexpected())
                },
                Outcome::Completed => if self.phase.discovers() {
                    Err(unexpected())
                } else {
                    Ok(Orchestrator { phase: self.phase.successor(), ..self })
                },
            }
        }
    }

    /// A run that has not begun.
    pub fn new() -> (o: Orchestrator)
        ensures
            o.phase == Phase::Init,
            o.referendum is None,
            o.wf(),
    {
        Orchestrator { phase: Phase::Init, referendum: None }
    }

    /// Moves the run on from the phase whose work has ended.
    pub fn advance(self, outcome: Outcome) -> (r: Result<Orchestrator, WorkflowError>)
        requires
            self.wf(),
        ensures
            r == self.after(outcome),
            r matches Ok(o) ==> o.wf() && (self.phase != Phase::Terminal ==> o.phase.ordinal()
                == self.phase.ordinal() + 1),
    {
        let discovers: bool = match self.phase {
            Phase::DiscoverReferendumIndex => true,
            Phase::DiscoverSecondReferendumIndex => true,
            Phase::Terminal => {
                return Ok(self);
            },
            _ => false,
        };
        match outcome {
            Outcome::Failed(e) => Err(e),
            Outcome::Counter(reading) => {
                if !discovers {
                    return Err(WorkflowError::InvariantViolation(Violation::UnexpectedReply));
                }
                match referendum_index(reading) {
                    Ok(index) => Ok(
                        Orchestrator { phase: self.phase.next(), referendum: Some(index) },
                    ),
                    Err(e) => Err(e),
                }
            },
            Outcome::Completed => {
                if discovers {
                    return Err(WorkflowError::InvariantViolation(Violation::UnexpectedReply));
                }
                Ok(Orchestrator { phase: self.phase.next(), referendum: self.referendum })
            },
        }
    }

    /// The referendum to vote on in a voting phase.
    pub fn ballot_target(&self) -> (index: u32)
        requires
            self.wf(),
            self.phase == Phase::VoteApprove || self.phase == Phase::VoteReject,
        ensures
            self.referendum == Some(index),
    {
        match self.referendum {
            Some(index) => index,
            None => 0,
        }
    }
}

/// The free balance that the sponsor is given: enough to fund every
/// test account and one more, and never less than the fixed amount.
pub open spec fn sponsor_free(s: Settings) -> int {
    if SPONSOR_FREE_TOKENS * s.unit >= s.test_account_funding * (s.nb_test_accounts + 1) {
        SPONSOR_FREE_TOKENS * s.unit
    } else {
        s.test_account_funding * (s.nb_test_accounts + 1)
    }
}

/// The privileged call that funds the sponsor.
pub open spec fn sponsor_grant(s: Settings, sponsor: AccountAddress) -> StepView {
    StepView::Enact {
        call: CallView::SetBalance {
            who: sponsor,
            new_free: sponsor_free(s) as u128,
            new_reserved: (SPONSOR_RESERVED_TOKENS * s.unit) as u128,
        },
    }
}

/// The sponsor transfers the funding to each of the first `count`
/// accounts, one transfer for each.
pub open spec fn transfers(s: Settings, addresses: Seq<AccountAddress>, count: int) -> Seq<StepView> {
    Seq::new(
        count as nat,
        |i: int|
            StepView::Submit {
                signer: Signer::Sponsor,
                call: CallView::Transfer { dest: addresses[i], value: s.test_account_funding },
            },
    )
}

/// Computes the free balance that the sponsor is given.
pub fn sponsor_funding(settings: &Settings) -> (amount: u128)
    requires
        settings.wf(),
    ensures
        amount == sponsor_free(*settings),
        amount >= settings.test_account_funding * (settings.nb_test_accounts + 1),
{
    let fixed: u128 = SPONSOR_FREE_TOKENS * settings.unit;
    let heads: u128 = settings.nb_test_accounts as u128 + 1;
    let needed: u128 = settings.test_account_funding * heads;
    if fixed >= needed {
        fixed
    } else {
        needed
    }
}

/// The step that funds the sponsor.
pub fn fund_sponsor(settings: &Settings, sponsor: AccountAddress) -> (step: Step)
    requires
        settings.wf(),
    ensures
        step@ == sponsor_grant(*settings, sponsor),
{
    let new_free: u128 = sponsor_funding(settings);
    assert(SPONSOR_RESERVED_TOKENS * settings.unit <= SPONSOR_FREE_TOKENS * settings.unit)
        by (nonlinear_arith)
        requires
            settings.unit >= 0,
            SPONSOR_RESERVED_TOKENS <= SPONSOR_FREE_TOKENS,
    ;
    let new_reserved: u128 = SPONSOR_RESERVED_TOKENS * settings.unit;
    Step::Enact { call: Call::SetBalance { who: sponsor, new_free, new_reserved } }
}

/// Lays out the funding of the test population: one transfer from the
/// sponsor to each account, each of the same amount.
pub fn fund(settings: &Settings, accounts: &[TestAccount]) -> (plan: Vec<Step>)
    requires
        settings.nb_test_accounts <= accounts.len(),
    ensures
        script(plan@) == transfers(
            *settings,
            addresses_of(accounts@),
            settings.nb_test_accounts as int,
        ),
{
    let n: usize = settings.nb_test_accounts as usize;
    let mut plan: Vec<Step> = Vec::new();
    let mut i: usize = 0;
    while i < n
        invariant
            i <= n,
            n == settings.nb_test_accounts,
            n <= accounts.len(),
            script(plan@) == transfers(*settings, addresses_of(accounts@), i as int),
        decreases n - i,
    {
        push_step(
            &mut plan,
            Step::Submit {
                signer: Signer::Sponsor,
                call: Call::Transfer {
                    dest: accounts[i].address,
                    value: settings.test_account_funding,
                },
            },
        );
        i += 1;
    }
    plan
}

} // verus!
