//! Referenda: proposing the upgrade, and voting on a referendum with a
//! bias towards one side. A ballot goes out as one byte that holds both
//! its direction and its conviction.

use vstd::prelude::*;
use rand::rngs::ThreadRng;
use crate::account::TestAccount;
use crate::address::ContentHash;
use crate::chance::pick_in;
use crate::command::{push_submit, push_wait, script, signers_within, submit_as, Call, CallView, Step, StepView};
use crate::hashing::{content_hash, hash_of};
use crate::settings::{Settings, PREIMAGE_AUTHOR, PROPOSAL_AUTHOR, VOTING_PERIOD_SECONDS};

verus! {

/// A value denoting the strength of conviction of a vote.
#[derive(Clone, Copy, Debug, PartialEq, Eq, Structural)]
pub enum Conviction {
    /// 0.1x votes, unlocked.
    Unlocked,
    /// 1x votes, locked for an enactment period following a successful vote.
    Locked1x,
    /// 2x votes, locked for 2x enactment periods following a successful vote.
    Locked2x,
    /// 3x votes, locked for 4x enactment periods.
    Locked3x,
    /// 4x votes, locked for 8x enactment periods.
    Locked4x,
    /// 5x votes, locked for 16x enactment periods.
    Locked5x,
    /// 6x votes, locked for 32x enactment periods.
    Locked6x,
}

impl Conviction {
    /// The conviction level, a number from 0 to 6.
    pub open spec fn level(self) -> u8 {
        match self {
            Conviction::Unlocked => 0u8,
            Conviction::Locked1x => 1u8,
            Conviction::Locked2x => 2u8,
            Conviction::Locked3x => 3u8,
            Conviction::Locked4x => 4u8,
            Conviction::Locked5x => 5u8,
            Conviction::Locked6x => 6u8,
        }
    }
}

impl From<Conviction> for u8 {
    fn from(c: Conviction) -> (level: u8) {
        match c {
            Conviction::Unlocked => 0,
            Conviction::Locked1x => 1,
            Conviction::Locked2x => 2,
            Conviction::Locked3x => 3,
            Conviction::Locked4x => 4,
            Conviction::Locked5x => 5,
            Conviction::Locked6x => 6,
        }
    }
}

impl vstd::std_specs::convert::FromSpecImpl<Conviction> for u8 {
    open spec fn obeys_from_spec() -> bool {
        true
    }

    open spec fn from_spec(c: Conviction) -> u8 {
        c.level()
    }
}

/// The wire form of a ballot: one byte, the high bit set for aye, the low
/// seven bits holding the conviction level.
#[derive(Clone, Copy, Debug, PartialEq, Eq, Structural)]
pub struct Vote(pub u8);

/// The bit of a ballot's byte that says aye.
pub const AYE_BIT: u8 = 0x80;

/// The bits of a ballot's byte that hold the conviction level.
pub const CONVICTION_MASK: u8 = 0x7f;

/// A number of lock periods, plus a vote, one way or the other.
#[derive(Clone, Copy, Debug, PartialEq, Eq, Structural)]
pub struct DemocracyVote {
    pub aye: bool,
    pub conviction: Conviction,
}

impl DemocracyVote {
    /// The byte that stands for this ballot, as a number.
    pub open spec fn byte(self) -> u8 {
        if self.aye {
            (self.conviction.level() + 128) as u8
        } else {
            self.conviction.level()
        }
    }

    /// Packs the ballot into its byte: the direction in the high bit, the
    /// conviction level in the low bits.
    pub fn encode(&self) -> (v: Vote)
        ensures
            v.0 == self.byte(),
            v.0 & AYE_BIT == (if self.aye { AYE_BIT } else { 0u8 }),
            v.0 & CONVICTION_MASK == self.conviction.level(),
    {
        let level: u8 = u8::from(self.conviction);
        let flag: u8 = if self.aye { AYE_BIT } else { 0 };
        let byte: u8 = level | flag;
        assert(byte == (if flag == 0x80u8 { (level + 128) as u8 } else { level })
            && byte & 0x80u8 == flag
            && byte & 0x7fu8 == level) by (bit_vector)
            requires
                level <= 6,
                flag == 0x80u8 || flag == 0u8,
                byte == level | flag,
        ;
        Vote(byte)
    }
}

/// The upgrade is noted as a preimage by one account and proposed, by
/// its hash and with a deposit, by another.
pub open spec fn upgrade_script(encoded: Seq<u8>, hash: ContentHash, deposit: u128) -> Seq<StepView> {
    seq![
        submit_as(PREIMAGE_AUTHOR as int, CallView::NotePreimage { encoded_proposal: encoded }),
        submit_as(
            PROPOSAL_AUTHOR as int,
            CallView::DemocracyPropose { proposal_hash: hash, value: deposit },
        ),
    ]
}

/// Lays out the proposal of an upgrade whose encoded call and content
/// hash are given.
pub fn upgrade_proposal(accounts: &[TestAccount], encoded: Vec<u8>, hash: ContentHash, deposit: u128) -> (plan:
    Vec<Step>)
    requires
        accounts.len() > PROPOSAL_AUTHOR,
    ensures
        script(plan@) == upgrade_script(encoded@, hash, deposit),
        signers_within(script(plan@), accounts.len() as int),
{
    let mut plan: Vec<Step> = Vec::new();
    push_submit(&mut plan, PREIMAGE_AUTHOR, Call::NotePreimage { encoded_proposal: encoded });
    push_submit(
        &mut plan,
        PROPOSAL_AUTHOR,
        Call::DemocracyPropose { proposal_hash: hash, value: deposit },
    );
    plan
}

/// Lays out the proposal of the upgrade: the encoded call that replaces
/// the runtime code is noted as a preimage, and proposed by its content
/// hash with the minimum deposit.
pub fn propose_upgrade(accounts: &[TestAccount], encoded: Vec<u8>, minimum_deposit: u128) -> (plan:
    Vec<Step>)
    requires
        accounts.len() > PROPOSAL_AUTHOR,
    ensures
        script(plan@) == upgrade_script(encoded@, hash_of(encoded@), minimum_deposit),
        signers_within(script(plan@), accounts.len() as int),
{
    let hash: ContentHash = content_hash(encoded.as_slice());
    upgrade_proposal(accounts, encoded, hash, minimum_deposit)
}

/// How many of the ballots say aye: four fifths of them when the
/// referendum is to pass, one fifth when it is to fail.
pub open spec fn aye_count(s: Settings, approve: bool) -> int {
    if approve {
        4 * s.nb_voters / 5
    } else {
        s.nb_voters as int / 5
    }
}

/// The ballot of one side. The side that is to win votes with four-fold
/// conviction, the other with single conviction.
pub open spec fn side_ballot(approve: bool, aye: bool) -> DemocracyVote {
    DemocracyVote {
        aye,
        conviction: if aye == approve {
            Conviction::Locked4x
        } else {
            Conviction::Locked1x
        },
    }
}

/// The stake behind a ballot: a fifth of an account's funding on the
/// side that is to win, a two-thousandth on the other.
pub open spec fn side_stake(s: Settings, approve: bool, aye: bool) -> u128 {
    if aye == approve {
        s.test_account_funding / 5
    } else {
        s.test_account_funding / 2000
    }
}

/// The first `count` ballots on the referendum: the ayes first, then
/// the nays, ballot `j` cast by the account at `voters[j]`.
pub open spec fn cast(s: Settings, ref_index: u32, approve: bool, voters: Seq<usize>, count: int) -> Seq<
    StepView,
> {
    Seq::new(
        count as nat,
        |j: int|
            {
                let aye = j < aye_count(s, approve);
                submit_as(
                    voters[j] as int,
                    CallView::DemocracyVote {
                        ref_index,
                        vote: Vote(side_ballot(approve, aye).byte()),
                        balance: side_stake(s, approve, aye),
                    },
                )
            },
    )
}

/// What follows the ballots: time for their inclusion, then for the
/// referendum to run its course.
pub open spec fn voting_period(s: Settings) -> Seq<StepView> {
    seq![
        StepView::Wait { seconds: s.block_inclusion_lag },
        StepView::Wait { seconds: VOTING_PERIOD_SECONDS },
    ]
}

/// The whole vote on a referendum, for given voters.
pub open spec fn referendum_script(s: Settings, ref_index: u32, approve: bool, voters: Seq<usize>) -> Seq<
    StepView,
> {
    cast(s, ref_index, approve, voters, s.nb_voters as int) + voting_period(s)
}

/// Whether a step is a ballot on a referendum that says aye (or, for
/// `aye` false, one that says nay).
pub open spec fn is_ballot(step: StepView, aye: bool) -> bool {
    step matches StepView::Submit { call: CallView::DemocracyVote { vote, .. }, .. } && (vote.0
        >= AYE_BIT) == aye
}

/// How many ballots of a script say aye (or nay).
pub open spec fn count_ballots(steps: Seq<StepView>, aye: bool) -> nat
    decreases steps.len(),
{
    if steps.len() == 0 {
        0
    } else {
        count_ballots(steps.drop_last(), aye) + if is_ballot(steps.last(), aye) {
            1nat
        } else {
            0nat
        }
    }
}

/// The voters are drawn by halves of a population of `population`
/// accounts: the ayes from its first half, the nays from its second.
pub open spec fn drawn_by_halves(s: Settings, approve: bool, voters: Seq<usize>, population: int) -> bool {
    &&& voters.len() == s.nb_voters
    &&& forall|j: int|
        0 <= j < voters.len() ==> if j < aye_count(s, approve) {
            (#[trigger] voters[j]) < population / 2
        } else {
            population / 2 <= voters[j] < population
        }
}

/// Each half of the population that a ballot is to be drawn from holds
/// an account.
pub open spec fn halves_suffice(s: Settings, approve: bool, population: int) -> bool {
    &&& aye_count(s, approve) > 0 ==> population >= 2
    &&& aye_count(s, approve) < s.nb_voters ==> population >= 1
}

/// A step appended to a script counts if it is a ballot of the side
/// asked for.
proof fn lemma_count_push(steps: Seq<StepView>, step: StepView, aye: bool)
    ensures
        count_ballots(steps.push(step), aye) == count_ballots(steps, aye) + if is_ballot(
            step,
            aye,
        ) {
            1nat
        } else {
            0nat
        },
{
    assert(steps.push(step).drop_last() =~= steps);
}

/// Computes how many of the ballots say aye.
pub fn aye_ballots(settings: &Settings, approve: bool) -> (ayes: u32)
    ensures
        ayes == aye_count(*settings, approve),
        ayes <= settings.nb_voters,
{
    if approve {
        (4 * (settings.nb_voters as u64) / 5) as u32
    } else {
        settings.nb_voters / 5
    }
}

/// Tests whether a population of `population` accounts has an account
/// in each half that a ballot is to be drawn from.
pub fn vote_is_possible(settings: &Settings, approve: bool, population: usize) -> (ok: bool)
    ensures
        ok == halves_suffice(*settings, approve, population as int),
{
    let ayes: u32 = aye_ballots(settings, approve);
    (ayes == 0 || population >= 2) && (ayes >= settings.nb_voters || population >= 1)
}

/// Among the first `count` ballots, those below the aye count say aye
/// and the others say nay.
proof fn lemma_count_cast(s: Settings, ref_index: u32, approve: bool, voters: Seq<usize>, count: int)
    requires
        0 <= count,
    ensures
        count_ballots(cast(s, ref_index, approve, voters, count), true) == if count <= aye_count(
            s,
            approve,
        ) {
            count
        } else {
            aye_count(s, approve)
        },
        count_ballots(cast(s, ref_index, approve, voters, count), false) == if count <= aye_count(
            s,
            approve,
        ) {
            0
        } else {
            count - aye_count(s, approve)
        },
    decreases count,
{
    let now = cast(s, ref_index, approve, voters, count);
    if count > 0 {
        lemma_count_cast(s, ref_index, approve, voters, count - 1);
        assert(now.drop_last() =~= cast(s, ref_index, approve, voters, count - 1));
        let aye = count - 1 < aye_count(s, approve);
        assert(now.last() == submit_as(
            voters[count - 1] as int,
            CallView::DemocracyVote {
                ref_index,
                vote: Vote(side_ballot(approve, aye).byte()),
                balance: side_stake(s, approve, aye),
            },
        ));
        assert(is_ballot(now.last(), aye));
        assert(!is_ballot(now.last(), !aye));
    }
}

/// The split of the ballots. Of the `nb_voters` ballots of a vote, as
/// many say aye as [`aye_count`] tells and all the others say nay. Where
/// the number of voters is a multiple of five, that is four fifths
/// against one fifth, whichever way the referendum is to go.
pub proof fn lemma_vote_split(s: Settings, ref_index: u32, approve: bool, voters: Seq<usize>)
    ensures
        count_ballots(referendum_script(s, ref_index, approve, voters), true) == aye_count(
            s,
            approve,
        ),
        count_ballots(referendum_script(s, ref_index, approve, voters), false) == s.nb_voters
            - aye_count(s, approve),
        count_ballots(referendum_script(s, ref_index, approve, voters), true) + count_ballots(
            referendum_script(s, ref_index, approve, voters),
            false,
        ) == s.nb_voters,
        s.nb_voters % 5 == 0 && approve ==> count_ballots(
            referendum_script(s, ref_index, approve, voters),
            true,
        ) == 4 * s.nb_voters / 5 && count_ballots(
            referendum_script(s, ref_index, approve, voters),
            false,
        ) == s.nb_voters / 5,
        s.nb_voters % 5 == 0 && !approve ==> count_ballots(
            referendum_script(s, ref_index, approve, voters),
            true,
        ) == s.nb_voters / 5 && count_ballots(
            referendum_script(s, ref_index, approve, voters),
            false,
        ) == 4 * s.nb_voters / 5,
{
    let ballots = cast(s, ref_index, approve, voters, s.nb_voters as int);
    let first = StepView::Wait { seconds: s.block_inclusion_lag };
    let second = StepView::Wait { seconds: VOTING_PERIOD_SECONDS };
    let whole = referendum_script(s, ref_index, approve, voters);
    lemma_count_cast(s, ref_index, approve, voters, s.nb_voters as int);
    assert(whole =~= ballots.push(first).push(second));
    lemma_count_push(ballots, first, true);
    lemma_count_push(ballots, first, false);
    lemma_count_push(ballots.push(first), second, true);
    lemma_count_push(ballots.push(first), second, false);
}

/// Lays out the vote on a referendum for given voters: ballot `j` is
/// cast by the account at `voters[j]`.
pub fn referendum_votes(
    settings: &Settings,
    accounts: &[TestAccount],
    ref_index: u32,
    approve: bool,
    voters: &Vec<usize>,
) -> (plan: Vec<Step>)
    requires
        voters.len() == settings.nb_voters,
        forall|j: int| 0 <= j < voters.len() ==> (#[trigger] voters[j]) < accounts.len(),
    ensures
        script(plan@) == referendum_script(*settings, ref_index, approve, voters@),
        signers_within(script(plan@), accounts.len() as int),
        count_ballots(script(plan@), true) == aye_count(*settings, approve),
        count_ballots(script(plan@), false) == settings.nb_voters - aye_count(*settings, approve),
{
    let n: usize = settings.nb_voters as usize;
    let ayes: usize = aye_ballots(settings, approve) as usize;
    let aye: DemocracyVote = DemocracyVote {
        aye: true,
        conviction: if approve {
            Conviction::Locked4x
        } else {
            Conviction::Locked1x
        },
    };
    let nay: DemocracyVote = DemocracyVote {
        aye: false,
        conviction: if !approve {
            Conviction::Locked4x
        } else {
            Conviction::Locked1x
        },
    };
    let aye_stake: u128 = if approve {
        settings.test_account_funding / 5
    } else {
        settings.test_account_funding / 2000
    };
    let nay_stake: u128 = if approve {
        settings.test_account_funding / 2000
    } else {
        settings.test_account_funding / 5
    };
    let mut plan: Vec<Step> = Vec::new();
    let mut j: usize = 0;
    while j < n
        invariant
            j <= n,
            n == settings.nb_voters,
            n == voters.len(),
            ayes == aye_count(*settings, approve),
            aye == side_ballot(approve, true),
            nay == side_ballot(approve, false),
            aye_stake == side_stake(*settings, approve, true),
            nay_stake == side_stake(*settings, approve, false),
            forall|j: int| 0 <= j < voters.len() ==> (#[trigger] voters[j]) < accounts.len(),
            script(plan@) == cast(*settings, ref_index, approve, voters@, j as int),
        decreases n - j,
    {
        let call: Call = if j < ayes {
            Call::DemocracyVote { ref_index, vote: aye.encode(), balance: aye_stake }
        } else {
            Call::DemocracyVote { ref_index, vote: nay.encode(), balance: nay_stake }
        };
        push_submit(&mut plan, voters[j], call);
        j += 1;
    }
    push_wait(&mut plan, settings.block_inclusion_lag);
    push_wait(&mut plan, VOTING_PERIOD_SECONDS);
    proof {
        assert(script(plan@) =~= referendum_script(*settings, ref_index, approve, voters@));
        lemma_vote_split(*settings, ref_index, approve, voters@);
    }
    plan
}

/// Lays out the vote on a referendum with voters drawn at random: the
/// ayes from the first half of the population, the nays from the second,
/// repeats allowed. Whatever is drawn, as many ballots say aye as
/// [`aye_count`] tells, all the others say nay, and there are
/// `nb_voters` of them.
pub fn vote(settings: &Settings, accounts: &[TestAccount], ref_index: u32, approve: bool) -> (plan:
    Vec<Step>)
    requires
        halves_suffice(*settings, approve, accounts.len() as int),
    ensures
        exists|voters: Seq<usize>| #[trigger]
            drawn_by_halves(*settings, approve, voters, accounts.len() as int) && script(plan@)
                == referendum_script(*settings, ref_index, approve, voters),
        signers_within(script(plan@), accounts.len() as int),
        count_ballots(script(plan@), true) == aye_count(*settings, approve),
        count_ballots(script(plan@), false) == settings.nb_voters - aye_count(*settings, approve),
{
    let n: usize = settings.nb_voters as usize;
    let ayes: usize = aye_ballots(settings, approve) as usize;
    let half: usize = accounts.len() / 2;
    let mut rng: ThreadRng = rand::thread_rng();
    let mut voters: Vec<usize> = Vec::new();
    let mut j: usize = 0;
    while j < n
        invariant
            j <= n,
            n == settings.nb_voters,
            ayes == aye_count(*settings, approve),
            half == accounts.len() / 2,
            halves_suffice(*settings, approve, accounts.len() as int),
            voters.len() == j,
            forall|k: int|
                0 <= k < voters.len() ==> if k < ayes {
                    (#[trigger] voters[k]) < half
                } else {
                    half <= voters[k] < accounts.len()
                },
        decreases n - j,
    {
        let k: usize = if j < ayes {
            pick_in(&mut rng, 0, half)
        } else {
            pick_in(&mut rng, half, accounts.len())
        };
        voters.push(k);
        j += 1;
    }
    assert(drawn_by_halves(*settings, approve, voters@, accounts.len() as int));
    referendum_votes(settings, accounts, ref_index, approve, &voters)
}

} // verus!
