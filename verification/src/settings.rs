//! The parameters of a run, and the constants that the workflows share.

use vstd::prelude::*;

verus! {

/// The sizes, amounts and delays that a run is made with. Amounts are in
/// the smallest unit of the token.
#[derive(Clone, Copy, Debug, PartialEq, Eq, Structural)]
pub struct Settings {
    /// How many smallest units make one whole token.
    pub unit: u128,
    /// What each test account is funded with.
    pub test_account_funding: u128,
    /// The least balance an account must keep to go on existing.
    pub existential_deposit: u128,
    /// The size of the test population.
    pub nb_test_accounts: u32,
    /// How many of the test accounts stand for the council.
    pub nb_councillor_candidates: u32,
    /// How many ballots are cast on a referendum.
    pub nb_voters: u32,
    /// Seconds allowed for a submitted transaction to be included.
    pub block_inclusion_lag: u64,
    /// Weight bound handed over when a council motion is closed.
    pub weight_bound: u64,
    /// Length bound handed over when a council motion is closed.
    pub length_bound: u32,
}

impl Settings {
    /// The amounts and delays that the workflows compute from these
    /// settings fit the machine's integers.
    pub open spec fn wf(self) -> bool {
        &&& self.block_inclusion_lag + ENACTMENT_SECONDS <= u64::MAX
        &&& SPONSOR_FREE_TOKENS * self.unit <= u128::MAX
        &&& self.test_account_funding * (self.nb_test_accounts + 1) <= u128::MAX
    }

    /// Tests whether the settings are well formed.
    pub fn is_valid(&self) -> (ok: bool)
        ensures
            ok == self.wf(),
    {
        if self.block_inclusion_lag > u64::MAX - ENACTMENT_SECONDS {
            return false;
        }
        if SPONSOR_FREE_TOKENS.checked_mul(self.unit).is_none() {
            return false;
        }
        let heads: u128 = self.nb_test_accounts as u128 + 1;
        self.test_account_funding.checked_mul(heads).is_some()
    }
}

/// Whole tokens that the sponsor is given as free balance, at least.
pub const SPONSOR_FREE_TOKENS: u128 = 1_000_000_001_000;

/// Whole tokens that the sponsor is given as reserved balance.
pub const SPONSOR_RESERVED_TOKENS: u128 = 1_000;

/// Whole tokens kept back from a bond to pay fees with.
pub const FEE_RESERVE_TOKENS: u128 = 10;

/// Entries fetched per page when the balance store is scanned.
pub const PAGE_SIZE: u32 = 10;

/// A ballot in the council election names fewer candidates than this.
pub const BALLOT_PICKS_BOUND: usize = 10;

/// The account that gives up its candidacy before the election settles.
pub const WITHDRAWING_CANDIDATE: usize = 2;

/// How many elected members give up their seats once the election has
/// settled: the first ones of the council, in its order.
pub const RESIGNING_MEMBERS: usize = 3;

/// The account that proposes the treasury spend and notes its preimage.
pub const SPEND_PROPOSER: usize = 10;

/// The account that notes the preimage of the upgrade.
pub const PREIMAGE_AUTHOR: usize = 20;

/// The account that proposes the upgrade.
pub const PROPOSAL_AUTHOR: usize = 21;

/// Member votes needed for the council motion.
pub const MOTION_THRESHOLD: u32 = 8;

/// Length bound given when the council motion is proposed.
pub const MOTION_LENGTH_BOUND: u32 = 42;

/// Seconds after which the election is taken to have settled.
pub const ELECTION_PERIOD_SECONDS: u64 = 360;

/// Seconds, beyond the inclusion lag, for an enactment to go through.
pub const ENACTMENT_SECONDS: u64 = 60;

/// Seconds, beyond the inclusion lag, that a referendum is given after
/// the last ballot.
pub const VOTING_PERIOD_SECONDS: u64 = 120;

/// Seconds that the approved upgrade is given to take effect.
pub const UPGRADE_SECONDS: u64 = 180;

} // verus!
