//! The council election: every candidate gives up a seat it may hold,
//! stands, and votes for a random handful of candidates; then one
//! candidacy is withdrawn and the election settles. Once it has, the
//! council is read, and its first three members resign so that
//! runners-up move up.

use vstd::prelude::*;
use rand::rngs::ThreadRng;
use crate::account::{addresses_of, find_account, TestAccount};
use crate::address::{
    lemma_precedes_asymmetric, lemma_precedes_irreflexive, lemma_precedes_total,
    lemma_precedes_transitive, precedes, AccountAddress, Rank,
};
use crate::chance::pick_in;
use crate::command::{
    push_submit, push_wait, script, signers_within, submit_as, Call, CallView, Renouncing, Step,
    StepView,
};
use crate::error::{Violation, WorkflowError};
use crate::settings::{
    Settings, BALLOT_PICKS_BOUND, ELECTION_PERIOD_SECONDS, RESIGNING_MEMBERS,
    WITHDRAWING_CANDIDATE,
};

verus! {

/// The addresses stand in strictly ascending order, so none occurs twice.
pub open spec fn ascending(s: Seq<AccountAddress>) -> bool {
    forall|i: int, j: int|
        #![trigger s[i], s[j]]
        0 <= i < j < s.len() ==> precedes(s[i]@, s[j]@)
}

/// Two sequences hold the same addresses, however often and in whatever
/// order.
pub open spec fn same_members(a: Seq<AccountAddress>, b: Seq<AccountAddress>) -> bool {
    forall|x: AccountAddress| a.contains(x) <==> b.contains(x)
}

/// The ballot made of the picked addresses: the same addresses, sorted
/// and each named once.
pub open spec fn ballot_of(picked: Seq<AccountAddress>) -> Seq<AccountAddress> {
    choose|b: Seq<AccountAddress>| ascending(b) && same_members(b, picked)
}

/// An ascending sequence names no address twice.
pub proof fn lemma_ascending_distinct(s: Seq<AccountAddress>)
    requires
        ascending(s),
    ensures
        s.no_duplicates(),
{
    assert forall|i: int, j: int| 0 <= i < s.len() && 0 <= j < s.len() && i != j implies s[i]
        != s[j] by {
        lemma_precedes_irreflexive(s[i]@);
        if i < j {
            assert(precedes(s[i]@, s[j]@));
        } else {
            assert(precedes(s[j]@, s[i]@));
        }
    }
}

/// There is one ascending sequence for a given set of members.
pub proof fn lemma_ascending_unique(a: Seq<AccountAddress>, b: Seq<AccountAddress>)
    requires
        ascending(a),
        ascending(b),
        same_members(a, b),
    ensures
        a == b,
    decreases a.len(),
{
    if a.len() == 0 {
        if b.len() > 0 {
            assert(b.contains(b[0]));
            assert(a.contains(b[0]));
        }
        assert(a =~= b);
    } else if b.len() == 0 {
        assert(a.contains(a[0]));
        assert(b.contains(a[0]));
    } else {
        let x = a.last();
        let y = b.last();
        assert(a.contains(x));
        assert(b.contains(x));
        assert(b.contains(y));
        assert(a.contains(y));
        let j = choose|j: int| 0 <= j < b.len() && b[j] == x;
        let i = choose|i: int| 0 <= i < a.len() && a[i] == y;
        if j < b.len() - 1 && i < a.len() - 1 {
            assert(precedes(b[j]@, b[b.len() - 1]@));
            assert(precedes(a[i]@, a[a.len() - 1]@));
            lemma_precedes_asymmetric(x@, y@);
        }
        assert(x == y);
        let a0 = a.drop_last();
        let b0 = b.drop_last();
        assert forall|z: AccountAddress| a0.contains(z) <==> b0.contains(z) by {
            lemma_precedes_irreflexive(x@);
            if a0.contains(z) {
                let k = choose|k: int| 0 <= k < a0.len() && a0[k] == z;
                assert(precedes(a[k]@, a[a.len() - 1]@));
                assert(a.contains(z));
                assert(b.contains(z));
                let m = choose|m: int| 0 <= m < b.len() && b[m] == z;
                assert(b0[m] == z);
            }
            if b0.contains(z) {
                let k = choose|k: int| 0 <= k < b0.len() && b0[k] == z;
                assert(precedes(b[k]@, b[b.len() - 1]@));
                assert(b.contains(z));
                assert(a.contains(z));
                let m = choose|m: int| 0 <= m < a.len() && a[m] == z;
                assert(a0[m] == z);
            }
        }
        assert(ascending(a0)) by {
            assert forall|p: int, q: int| 0 <= p < q < a0.len() implies precedes(
                a0[p]@,
                a0[q]@,
            ) by {
                assert(precedes(a[p]@, a[q]@));
            }
        }
        assert(ascending(b0)) by {
            assert forall|p: int, q: int| 0 <= p < q < b0.len() implies precedes(
                b0[p]@,
                b0[q]@,
            ) by {
                assert(precedes(b[p]@, b[q]@));
            }
        }
        lemma_ascending_unique(a0, b0);
        assert(a =~= a0.push(x));
        assert(b =~= b0.push(y));
    }
}

/// An ascending sequence with the members of `picked` is the ballot of
/// `picked`.
pub proof fn lemma_ballot_is(picked: Seq<AccountAddress>, witness: Seq<AccountAddress>)
    requires
        ascending(witness),
        same_members(witness, picked),
    ensures
        ballot_of(picked) == witness,
{
    let b = ballot_of(picked);
    assert(ascending(b) && same_members(b, picked));
    lemma_ascending_unique(b, witness);
}

/// An ascending sequence can take in one more address and stay
/// ascending.
proof fn lemma_room_for_one(b: Seq<AccountAddress>, who: AccountAddress) -> (r: Seq<AccountAddress>)
    requires
        ascending(b),
    ensures
        ascending(r),
        forall|x: AccountAddress| r.contains(x) <==> b.contains(x) || x == who,
    decreases b.len(),
{
    if b.len() == 0 {
        let r = seq![who];
        assert(r[0] == who);
        r
    } else {
        let last = b.last();
        let rest = b.drop_last();
        assert(b =~= rest.push(last));
        assert(b.contains(last)) by {
            assert(b[b.len() - 1] == last);
        }
        if last == who {
            b
        } else if precedes(last@, who@) {
            let r = b.push(who);
            assert forall|i: int, j: int| 0 <= i < j < r.len() implies precedes(r[i]@, r[j]@) by {
                if j < b.len() {
                    assert(precedes(b[i]@, b[j]@));
                } else if i < b.len() - 1 {
                    assert(precedes(b[i]@, b[b.len() - 1]@));
                    lemma_precedes_transitive(b[i]@, last@, who@);
                }
            }
            assert forall|x: AccountAddress| r.contains(x) <==> b.contains(x) || x == who by {
                if r.contains(x) {
                    let k = choose|k: int| 0 <= k < r.len() && r[k] == x;
                    if k < b.len() {
                        assert(b[k] == x);
                    }
                }
                if b.contains(x) {
                    let k = choose|k: int| 0 <= k < b.len() && b[k] == x;
                    assert(r[k] == x);
                }
                if x == who {
                    assert(r[r.len() - 1] == x);
                }
            }
            r
        } else {
            lemma_precedes_total(last@, who@);
            assert(last@ != who@) by {
                if last@ == who@ {
                    assert(last.bytes =~= who.bytes);
                }
            }
            assert(ascending(rest)) by {
                assert forall|p: int, q: int| 0 <= p < q < rest.len() implies precedes(
                    rest[p]@,
                    rest[q]@,
                ) by {
                    assert(precedes(b[p]@, b[q]@));
                }
            }
            let r0 = lemma_room_for_one(rest, who);
            let r = r0.push(last);
            assert forall|i: int, j: int| 0 <= i < j < r.len() implies precedes(r[i]@, r[j]@) by {
                if j < r0.len() {
                    assert(precedes(r0[i]@, r0[j]@));
                } else {
                    assert(r0.contains(r0[i]));
                    if rest.contains(r0[i]) {
                        let k = choose|k: int| 0 <= k < rest.len() && rest[k] == r0[i];
                        assert(precedes(b[k]@, b[b.len() - 1]@));
                    }
                }
            }
            assert forall|x: AccountAddress| r.contains(x) <==> b.contains(x) || x == who by {
                if r.contains(x) {
                    let k = choose|k: int| 0 <= k < r.len() && r[k] == x;
                    if k < r0.len() {
                        assert(r0[k] == x);
                        assert(r0.contains(x));
                        if rest.contains(x) {
                            let m = choose|m: int| 0 <= m < rest.len() && rest[m] == x;
                            assert(b[m] == x);
                        }
                    }
                }
                if b.contains(x) {
                    let k = choose|k: int| 0 <= k < b.len() && b[k] == x;
                    if k < rest.len() {
                        assert(rest[k] == x);
                        assert(rest.contains(x));
                        assert(r0.contains(x));
                        let m = choose|m: int| 0 <= m < r0.len() && r0[m] == x;
                        assert(r[m] == x);
                    } else {
                        assert(r[r.len() - 1] == x);
                    }
                }
                if x == who {
                    assert(r0.contains(x));
                    let m = choose|m: int| 0 <= m < r0.len() && r0[m] == x;
                    assert(r[m] == x);
                }
            }
            r
        }
    }
}

/// Candidate vote lists are sorted and free of duplicates: whatever is
/// picked, the ballot made of it is ascending, names no address twice,
/// and names each picked address and no other.
pub proof fn lemma_ballot_sorted_and_distinct(picked: Seq<AccountAddress>)
    ensures
        ascending(ballot_of(picked)),
        ballot_of(picked).no_duplicates(),
        same_members(ballot_of(picked), picked),
    decreases picked.len(),
{
    if picked.len() == 0 {
        let b = Seq::<AccountAddress>::empty();
        assert(ascending(b) && same_members(b, picked));
    } else {
        let head = picked.drop_last();
        let who = picked.last();
        lemma_ballot_sorted_and_distinct(head);
        let b = lemma_room_for_one(ballot_of(head), who);
        assert forall|x: AccountAddress| b.contains(x) <==> picked.contains(x) by {
            if picked.contains(x) {
                let k = choose|k: int| 0 <= k < picked.len() && picked[k] == x;
                if k < head.len() {
                    assert(head[k] == x);
                    assert(head.contains(x));
                }
            }
            if head.contains(x) {
                let k = choose|k: int| 0 <= k < head.len() && head[k] == x;
                assert(picked[k] == x);
            }
            if x == who {
                assert(picked[picked.len() - 1] == x);
            }
        }
        assert(ascending(b) && same_members(b, picked));
    }
    lemma_ascending_distinct(ballot_of(picked));
}

/// Puts an address in its place in an ascending ballot, unless the
/// ballot names it already.
fn note_pick(ballot: &mut Vec<AccountAddress>, who: AccountAddress)
    requires
        ascending(old(ballot)@),
    ensures
        ascending(final(ballot)@),
        forall|x: AccountAddress|
            final(ballot)@.contains(x) <==> old(ballot)@.contains(x) || x == who,
{
    let ghost before = ballot@;
    let mut p: usize = 0;
    while p < ballot.len()
        invariant
            p <= ballot.len(),
            ballot@ == before,
            ascending(before),
            forall|i: int| 0 <= i < p ==> precedes(#[trigger] before[i]@, who@),
        ensures
            p < ballot.len() ==> precedes(who@, before[p as int]@),
        decreases ballot.len() - p,
    {
        match ballot[p].rank(&who) {
            Rank::Before => {
                p += 1;
            },
            Rank::Same => {
                return ;
            },
            Rank::After => {
                break ;
            },
        }
    }
    ballot.insert(p, who);
    proof {
        let after = ballot@;
        assert(after == before.insert(p as int, who));
        assert forall|i: int, j: int| 0 <= i < j < after.len() implies precedes(
            after[i]@,
            after[j]@,
        ) by {
            if j < p {
                assert(precedes(before[i]@, before[j]@));
            } else if j == p {
                assert(precedes(before[i]@, who@));
            } else if i == p {
                assert(precedes(who@, before[p as int]@));
                if j - 1 > p {
                    assert(precedes(before[p as int]@, before[j - 1]@));
                    lemma_precedes_transitive(who@, before[p as int]@, before[j - 1]@);
                }
            } else if i < p {
                assert(precedes(before[i]@, before[j - 1]@));
            } else {
                assert(precedes(before[i - 1]@, before[j - 1]@));
            }
        }
        assert forall|x: AccountAddress| after.contains(x) <==> before.contains(x) || x
            == who by {
            if after.contains(x) {
                let k = choose|k: int| 0 <= k < after.len() && after[k] == x;
                if k < p {
                    assert(before[k] == x);
                } else if k > p {
                    assert(before[k - 1] == x);
                }
            }
            if before.contains(x) {
                let k = choose|k: int| 0 <= k < before.len() && before[k] == x;
                if k < p {
                    assert(after[k] == x);
                } else {
                    assert(after[k + 1] == x);
                }
            }
            if x == who {
                assert(after[p as int] == x);
            }
        }
    }
}

/// Makes a ballot of the picked addresses: sorts them and drops what is
/// named twice.
pub fn ballot(picked: &Vec<AccountAddress>) -> (votes: Vec<AccountAddress>)
    ensures
        votes@ == ballot_of(picked@),
        ascending(votes@),
        votes@.no_duplicates(),
        same_members(votes@, picked@),
{
    let mut votes: Vec<AccountAddress> = Vec::new();
    let mut i: usize = 0;
    while i < picked.len()
        invariant
            i <= picked.len(),
            ascending(votes@),
            same_members(votes@, picked@.take(i as int)),
        decreases picked.len() - i,
    {
        let ghost seen = picked@.take(i as int);
        note_pick(&mut votes, picked[i]);
        proof {
            let now = picked@.take(i + 1);
            assert(now =~= seen.push(picked@[i as int]));
            assert forall|x: AccountAddress| votes@.contains(x) <==> now.contains(x) by {
                if now.contains(x) {
                    let k = choose|k: int| 0 <= k < now.len() && now[k] == x;
                    if k < i {
                        assert(seen[k] == x);
                        assert(seen.contains(x));
                    }
                }
                if seen.contains(x) {
                    let k = choose|k: int| 0 <= k < seen.len() && seen[k] == x;
                    assert(now[k] == x);
                }
                if x == picked@[i as int] {
                    assert(now[i as int] == x);
                }
            }
        }
        i += 1;
    }
    proof {
        assert(picked@.take(picked.len() as int) =~= picked@);
        lemma_ballot_is(picked@, votes@);
        lemma_ascending_distinct(votes@);
    }
    votes
}

/// The addresses of the accounts that the picks point at, pick by pick.
pub open spec fn picked_from(addresses: Seq<AccountAddress>, picks: Seq<usize>) -> Seq<
    AccountAddress,
> {
    picks.map_values(|k: usize| addresses[k as int])
}

/// The picks of all voters, as sequences.
pub open spec fn rows(picks: Seq<Vec<usize>>) -> Seq<Seq<usize>> {
    picks.map_values(|row: Vec<usize>| row@)
}

/// Each of the first `count` accounts gives up the seat it may hold.
pub open spec fn renouncements(count: int) -> Seq<StepView> {
    Seq::new(
        count as nat,
        |i: int| submit_as(i, CallView::RenounceCandidacy { renouncing: Renouncing::Member }),
    )
}

/// Each of the first `count` accounts stands for the council, at its own
/// index.
pub open spec fn candidacies(count: int) -> Seq<StepView> {
    Seq::new(
        count as nat,
        |i: int| submit_as(i, CallView::SubmitCandidacy { candidate_count: i as u32 }),
    )
}

/// The stake that backs a ballot: a tenth of what an account is funded
/// with.
pub open spec fn ballot_stake(s: Settings) -> u128 {
    s.test_account_funding / 10
}

/// Each of the first `count` accounts votes for the candidates that its
/// picks point at.
pub open spec fn ballots(
    s: Settings,
    addresses: Seq<AccountAddress>,
    picks: Seq<Seq<usize>>,
    count: int,
) -> Seq<StepView> {
    Seq::new(
        count as nat,
        |i: int|
            submit_as(
                i,
                CallView::ElectionVote {
                    votes: ballot_of(picked_from(addresses, picks[i])),
                    value: ballot_stake(s),
                },
            ),
    )
}

/// One candidate withdraws, and the election is given time to settle.
pub open spec fn withdrawal() -> Seq<StepView> {
    seq![
        submit_as(
            WITHDRAWING_CANDIDATE as int,
            CallView::RenounceCandidacy {
                renouncing: Renouncing::Candidate(WITHDRAWING_CANDIDATE as u32),
            },
        ),
        StepView::Wait { seconds: ELECTION_PERIOD_SECONDS },
    ]
}

/// The election up to the moment it has settled, for the given picks of
/// each voter.
pub open spec fn election_script(
    s: Settings,
    addresses: Seq<AccountAddress>,
    picks: Seq<Seq<usize>>,
) -> Seq<StepView> {
    let n = s.nb_councillor_candidates as int;
    renouncements(n) + candidacies(n) + ballots(s, addresses, picks, n) + withdrawal()
}

/// The failure reported when the council is too small for the seats
/// that are to be given up.
pub open spec fn too_few_members() -> WorkflowError {
    WorkflowError::InvariantViolation(Violation::TooFewMembers)
}

/// Each of the first `count` members of the council is a test account.
pub open spec fn seats_owned(
    addresses: Seq<AccountAddress>,
    members: Seq<AccountAddress>,
    count: int,
) -> bool {
    forall|k: int| 0 <= k < count ==> addresses.index_of_first(#[trigger] members[k]) is Some
}

/// The test account that signs for the member at `k`: the first one that
/// owns the member's address.
pub open spec fn seat_signer(addresses: Seq<AccountAddress>, members: Seq<AccountAddress>, k: int) -> int {
    addresses.index_of_first(members[k])->Some_0
}

/// The first `count` members of the council give up their seats, each
/// under the test account that owns its address.
pub open spec fn vacated_seats(
    addresses: Seq<AccountAddress>,
    members: Seq<AccountAddress>,
    count: int,
) -> Seq<StepView> {
    Seq::new(
        count as nat,
        |k: int|
            submit_as(
                seat_signer(addresses, members, k),
                CallView::RenounceCandidacy { renouncing: Renouncing::Member },
            ),
    )
}

/// What follows the settled election, given the council as it then
/// stands: its first three members resign, and time is given for that
/// to be included. A council of fewer than three members is a
/// violation; a member among the three that is no test account cannot
/// be signed for.
pub open spec fn resignation_script(
    s: Settings,
    addresses: Seq<AccountAddress>,
    members: Seq<AccountAddress>,
) -> Result<Seq<StepView>, WorkflowError> {
    if members.len() < RESIGNING_MEMBERS {
        Err(too_few_members())
    } else if !seats_owned(addresses, members, RESIGNING_MEMBERS as int) {
        Err(WorkflowError::MissingIdentityMapping)
    } else {
        Ok(
            vacated_seats(addresses, members, RESIGNING_MEMBERS as int) + seq![
                StepView::Wait { seconds: s.block_inclusion_lag },
            ],
        )
    }
}

/// The seats given up after the election are those of the first three
/// members of the council as it stands then: each resignation is signed
/// by a test account that owns that member's address, and members that
/// differ are signed for by accounts that differ.
pub proof fn lemma_first_members_resign(
    s: Settings,
    addresses: Seq<AccountAddress>,
    members: Seq<AccountAddress>,
)
    requires
        resignation_script(s, addresses, members) is Ok,
    ensures
        members.len() >= RESIGNING_MEMBERS,
        resignation_script(s, addresses, members)->Ok_0.len() == RESIGNING_MEMBERS + 1,
        forall|k: int|
            0 <= k < RESIGNING_MEMBERS ==> {
                &&& 0 <= seat_signer(addresses, members, k) < addresses.len()
                &&& addresses[seat_signer(addresses, members, k)] == #[trigger] members[k]
                &&& resignation_script(s, addresses, members)->Ok_0[k] == submit_as(
                    seat_signer(addresses, members, k),
                    CallView::RenounceCandidacy { renouncing: Renouncing::Member },
                )
            },
        forall|i: int, j: int|
            0 <= i < RESIGNING_MEMBERS && 0 <= j < RESIGNING_MEMBERS && #[trigger] members[i]
                != #[trigger] members[j] ==> seat_signer(addresses, members, i) != seat_signer(
                addresses,
                members,
                j,
            ),
        resignation_script(s, addresses, members)->Ok_0[RESIGNING_MEMBERS as int]
            == (StepView::Wait { seconds: s.block_inclusion_lag }),
{
    assert forall|k: int| 0 <= k < RESIGNING_MEMBERS implies {
        &&& 0 <= seat_signer(addresses, members, k) < addresses.len()
        &&& addresses[seat_signer(addresses, members, k)] == #[trigger] members[k]
    } by {
        addresses.index_of_first_ensures(members[k]);
    }
}

/// Every ballot of the script is sorted and names no candidate twice.
pub open spec fn ballots_in_order(steps: Seq<StepView>) -> bool {
    forall|k: int|
        0 <= k < steps.len() ==> (#[trigger] steps[k] matches StepView::Submit {
            call: CallView::ElectionVote { votes, .. },
            ..
        } ==> ascending(votes) && votes.no_duplicates())
}

/// Whatever the picks, every ballot of the election is sorted and names
/// no candidate twice.
pub proof fn lemma_election_ballots_in_order(
    s: Settings,
    addresses: Seq<AccountAddress>,
    picks: Seq<Seq<usize>>,
)
    ensures
        ballots_in_order(election_script(s, addresses, picks)),
{
    let n = s.nb_councillor_candidates as int;
    let steps = election_script(s, addresses, picks);
    assert forall|k: int| 0 <= k < steps.len() implies (#[trigger] steps[k] matches StepView::Submit {
        call: CallView::ElectionVote { votes, .. },
        ..
    } ==> ascending(votes) && votes.no_duplicates()) by {
        if 2 * n <= k < 3 * n {
            let i = k - 2 * n;
            assert(steps[k] == ballots(s, addresses, picks, n)[i]);
            lemma_ballot_sorted_and_distinct(picked_from(addresses, picks[i]));
        }
    }
}

/// The picks are as the election draws them: a row for each candidate,
/// fewer picks in a row than the bound, each pick a candidate.
pub open spec fn drawn(s: Settings, picks: Seq<Seq<usize>>) -> bool {
    &&& picks.len() == s.nb_councillor_candidates
    &&& forall|i: int|
        0 <= i < picks.len() ==> (#[trigger] picks[i]).len() < BALLOT_PICKS_BOUND
    &&& forall|i: int, j: int|
        0 <= i < picks.len() && 0 <= j < picks[i].len() ==> (#[trigger] picks[i][j])
            < s.nb_councillor_candidates
}

/// The picks point at accounts of a population of `population` accounts.
pub open spec fn picks_within(picks: Seq<Seq<usize>>, population: int) -> bool {
    forall|i: int, j: int|
        0 <= i < picks.len() && 0 <= j < picks[i].len() ==> (#[trigger] picks[i][j]) < population
}

/// The population is large enough for the election to be run on it.
pub open spec fn election_fits(s: Settings, population: int) -> bool {
    &&& s.nb_councillor_candidates <= population
    &&& WITHDRAWING_CANDIDATE < population
}

/// Tests whether the population is large enough for the election.
pub fn election_is_possible(settings: &Settings, population: usize) -> (ok: bool)
    ensures
        ok == election_fits(*settings, population as int),
{
    settings.nb_councillor_candidates as usize <= population && WITHDRAWING_CANDIDATE < population
}

/// Collects the addresses that one voter's picks point at.
fn picked_addresses(accounts: &[TestAccount], row: &Vec<usize>) -> (picked: Vec<AccountAddress>)
    requires
        forall|j: int| 0 <= j < row.len() ==> (#[trigger] row[j]) < accounts.len(),
    ensures
        picked@ == picked_from(addresses_of(accounts@), row@),
{
    let mut picked: Vec<AccountAddress> = Vec::new();
    let mut j: usize = 0;
    while j < row.len()
        invariant
            j <= row.len(),
            forall|j: int| 0 <= j < row.len() ==> (#[trigger] row[j]) < accounts.len(),
            picked@ == picked_from(addresses_of(accounts@), row@.take(j as int)),
        decreases row.len() - j,
    {
        let k: usize = row[j];
        picked.push(accounts[k].address);
        j += 1;
    }
    picked
}

/// Lays out the election, up to the moment it has settled, for given
/// picks: row `i` of `picks` holds the indices of the candidates that
/// account `i` votes for.
pub fn council_election(settings: &Settings, accounts: &[TestAccount], picks: &Vec<Vec<usize>>) -> (plan:
    Vec<Step>)
    requires
        election_fits(*settings, accounts.len() as int),
        picks.len() == settings.nb_councillor_candidates,
        picks_within(rows(picks@), accounts.len() as int),
    ensures
        script(plan@) == election_script(*settings, addresses_of(accounts@), rows(picks@)),
        ballots_in_order(script(plan@)),
        signers_within(script(plan@), accounts.len() as int),
{
    let n: usize = settings.nb_councillor_candidates as usize;
    let ghost addresses = addresses_of(accounts@);
    let ghost all = rows(picks@);
    let mut plan: Vec<Step> = Vec::new();
    let mut i: usize = 0;
    while i < n
        invariant
            i <= n,
            script(plan@) == renouncements(i as int),
        decreases n - i,
    {
        push_submit(&mut plan, i, Call::RenounceCandidacy { renouncing: Renouncing::Member });
        i += 1;
    }
    i = 0;
    while i < n
        invariant
            i <= n,
            n == settings.nb_councillor_candidates,
            script(plan@) == renouncements(n as int) + candidacies(i as int),
        decreases n - i,
    {
        push_submit(&mut plan, i, Call::SubmitCandidacy { candidate_count: i as u32 });
        i += 1;
    }
    let ghost head = script(plan@);
    i = 0;
    while i < n
        invariant
            i <= n,
            n == settings.nb_councillor_candidates,
            n == picks.len(),
            n <= accounts.len(),
            addresses == addresses_of(accounts@),
            all == rows(picks@),
            picks_within(all, accounts.len() as int),
            ballots_in_order(script(plan@)),
            head == renouncements(n as int) + candidacies(n as int),
            script(plan@) == head + ballots(*settings, addresses, all, i as int),
        decreases n - i,
    {
        let row: &Vec<usize> = &picks[i];
        assert forall|j: int| 0 <= j < row.len() implies (#[trigger] row[j]) < accounts.len() by {
            assert(all[i as int][j] < accounts.len());
        }
        let picked: Vec<AccountAddress> = picked_addresses(accounts, row);
        let votes: Vec<AccountAddress> = ballot(&picked);
        push_submit(
            &mut plan,
            i,
            Call::ElectionVote { votes, value: settings.test_account_funding / 10 },
        );
        i += 1;
    }
    push_submit(
        &mut plan,
        WITHDRAWING_CANDIDATE,
        Call::RenounceCandidacy { renouncing: Renouncing::Candidate(WITHDRAWING_CANDIDATE as u32) },
    );
    push_wait(&mut plan, ELECTION_PERIOD_SECONDS);
    plan
}

/// Lays out what follows the settled election, given the council as it
/// was read then: the first three members resign, each under the test
/// account that owns its address, and time is given for the
/// resignations to be included.
pub fn vacate_seats(settings: &Settings, accounts: &[TestAccount], members: &[AccountAddress]) -> (r:
    Result<Vec<Step>, WorkflowError>)
    ensures
        match r {
            Ok(plan) => resignation_script(*settings, addresses_of(accounts@), members@) == Ok::<
                Seq<StepView>,
                WorkflowError,
            >(script(plan@)) && signers_within(script(plan@), accounts.len() as int),
            Err(e) => resignation_script(*settings, addresses_of(accounts@), members@) == Err::<
                Seq<StepView>,
                WorkflowError,
            >(e),
        },
{
    if members.len() < RESIGNING_MEMBERS {
        return Err(WorkflowError::InvariantViolation(Violation::TooFewMembers));
    }
    let ghost addresses = addresses_of(accounts@);
    let mut plan: Vec<Step> = Vec::new();
    let mut k: usize = 0;
    while k < RESIGNING_MEMBERS
        invariant
            k <= RESIGNING_MEMBERS,
            RESIGNING_MEMBERS <= members.len(),
            addresses == addresses_of(accounts@),
            seats_owned(addresses, members@, k as int),
            script(plan@) == vacated_seats(addresses, members@, k as int),
            signers_within(script(plan@), accounts.len() as int),
        decreases RESIGNING_MEMBERS - k,
    {
        match find_account(accounts, &members[k]) {
            Some(p) => {
                proof {
                    addresses.index_of_first_ensures(members[k as int]);
                }
                push_submit(
                    &mut plan,
                    p,
                    Call::RenounceCandidacy { renouncing: Renouncing::Member },
                );
            },
            None => {
                return Err(WorkflowError::MissingIdentityMapping);
            },
        }
        k += 1;
    }
    push_wait(&mut plan, settings.block_inclusion_lag);
    assert(script(plan@) =~= vacated_seats(addresses, members@, RESIGNING_MEMBERS as int) + seq![
        StepView::Wait { seconds: settings.block_inclusion_lag },
    ]);
    Ok(plan)
}

/// Draws the picks of one voter: `count` of them, each a candidate
/// taken at random, repeats allowed.
fn draw_row(rng: &mut ThreadRng, count: usize, candidates: usize) -> (row: Vec<usize>)
    requires
        candidates > 0,
    ensures
        row.len() == count,
        forall|j: int| 0 <= j < row.len() ==> (#[trigger] row[j]) < candidates,
{
    let mut row: Vec<usize> = Vec::new();
    let mut j: usize = 0;
    while j < count
        invariant
            j <= count,
            candidates > 0,
            row.len() == j,
            forall|k: int| 0 <= k < row.len() ==> (#[trigger] row[k]) < candidates,
        decreases count - j,
    {
        let k: usize = pick_in(rng, 0, candidates);
        row.push(k);
        j += 1;
    }
    row
}

/// Lays out the council election, up to the moment it has settled, with
/// ballots drawn at random: every candidate votes for up to nine
/// candidates, each picked uniformly from all of them. Whatever is
/// drawn, the script is that of [`council_election`] for the drawn
/// picks, and every ballot in it is sorted and free of duplicates. What
/// follows the settlement is laid out by [`vacate_seats`], once the
/// council has been read.
pub fn populate_council(settings: &Settings, accounts: &[TestAccount]) -> (plan: Vec<Step>)
    requires
        election_fits(*settings, accounts.len() as int),
    ensures
        exists|picks: Seq<Seq<usize>>| #[trigger]
            drawn(*settings, picks) && script(plan@) == election_script(
                *settings,
                addresses_of(accounts@),
                picks,
            ),
        ballots_in_order(script(plan@)),
        signers_within(script(plan@), accounts.len() as int),
{
    let n: usize = settings.nb_councillor_candidates as usize;
    let mut rng: ThreadRng = rand::thread_rng();
    let mut picks: Vec<Vec<usize>> = Vec::new();
    let mut i: usize = 0;
    while i < n
        invariant
            i <= n,
            picks.len() == i,
            forall|a: int| 0 <= a < picks.len() ==> (#[trigger] picks[a]).len() < BALLOT_PICKS_BOUND,
            forall|a: int, b: int|
                0 <= a < picks.len() && 0 <= b < picks[a].len() ==> (#[trigger] picks[a][b]) < n,
        decreases n - i,
    {
        let count: usize = pick_in(&mut rng, 0, BALLOT_PICKS_BOUND);
        let row: Vec<usize> = draw_row(&mut rng, count, n);
        picks.push(row);
        i += 1;
    }
    proof {
        let all = rows(picks@);
        assert(drawn(*settings, all)) by {
            assert forall|a: int| 0 <= a < all.len() implies (#[trigger] all[a]).len()
                < BALLOT_PICKS_BOUND by {
                assert(all[a] == picks[a]@);
            }
            assert forall|a: int, b: int| 0 <= a < all.len() && 0 <= b < all[a].len() implies (
            #[trigger] all[a][b]) < settings.nb_councillor_candidates by {
                assert(all[a] == picks[a]@);
                assert(picks[a][b] < n);
            }
        }
        assert(picks_within(all, accounts.len() as int));
    }
    council_election(settings, accounts, &picks)
}

} // verus!
