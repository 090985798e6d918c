use upgrade_harness::account::TestAccount;
use upgrade_harness::address::{AccountAddress, ContentHash};
use upgrade_harness::command::{Call, Proposal, Renouncing, Signer, Step};
use upgrade_harness::council::election::{ballot, council_election};
use upgrade_harness::council::motion::{transition, Motion, Pending};
use upgrade_harness::council::{external_majority_workflow, populate_council, vacate_seats};
use upgrade_harness::error::{Violation, WorkflowError};
use upgrade_harness::protocol::{Counter, Directive, Reply};
use upgrade_harness::settings::Settings;

fn settings(candidates: u32) -> Settings {
    Settings {
        unit: 1_000,
        test_account_funding: 1_000_000,
        existential_deposit: 100,
        nb_test_accounts: 12,
        nb_councillor_candidates: candidates,
        nb_voters: 5,
        block_inclusion_lag: 12,
        weight_bound: 777,
        length_bound: 99,
    }
}

fn address(tag: u8) -> AccountAddress {
    AccountAddress { bytes: [tag; 32] }
}

/// Account `i` has an address that falls as `i` rises, so that the order
/// of addresses is the reverse of the order of indices.
fn population(count: usize) -> Vec<TestAccount> {
    (0..count)
        .map(|i| TestAccount {
            index: i as u32,
            identity: format!("//sponsor//{}", i),
            address: address(200 - i as u8),
        })
        .collect()
}

fn submit(k: usize, call: Call) -> Step {
    Step::Submit { signer: Signer::Account(k), call }
}

fn resign(k: usize) -> Step {
    submit(k, Call::RenounceCandidacy { renouncing: Renouncing::Member })
}

#[test]
fn ballot_is_sorted_and_names_each_pick_once() {
    let picked = vec![address(9), address(3), address(9), address(200), address(3), address(1)];
    assert_eq!(ballot(&picked), vec![address(1), address(3), address(9), address(200)]);
}

#[test]
fn ballot_of_no_picks_is_empty() {
    assert_eq!(ballot(&Vec::new()), Vec::<AccountAddress>::new());
}

#[test]
fn ballot_order_looks_at_the_first_differing_byte() {
    let mut low = [7u8; 32];
    low[31] = 0;
    let mut high = [7u8; 32];
    high[0] = 6;
    high[31] = 255;
    let picked = vec![AccountAddress { bytes: low }, AccountAddress { bytes: high }];
    assert_eq!(ballot(&picked), vec![AccountAddress { bytes: high }, AccountAddress { bytes: low }]);
}

#[test]
fn election_is_laid_out_phase_by_phase() {
    let s = settings(3);
    let accounts = population(4);
    let picks = vec![vec![2usize, 0, 2], vec![], vec![1]];
    let plan = council_election(&s, &accounts, &picks);
    let vote = |k: usize, votes: Vec<AccountAddress>| submit(k, Call::ElectionVote { votes, value: 100_000 });
    assert_eq!(
        plan,
        vec![
            resign(0),
            resign(1),
            resign(2),
            submit(0, Call::SubmitCandidacy { candidate_count: 0 }),
            submit(1, Call::SubmitCandidacy { candidate_count: 1 }),
            submit(2, Call::SubmitCandidacy { candidate_count: 2 }),
            vote(0, vec![address(198), address(200)]),
            vote(1, vec![]),
            vote(2, vec![address(199)]),
            submit(2, Call::RenounceCandidacy { renouncing: Renouncing::Candidate(2) }),
            Step::Wait { seconds: 360 },
        ]
    );
}

#[test]
fn election_without_candidates_still_withdraws_and_settles() {
    let s = settings(0);
    let plan = council_election(&s, &population(3), &Vec::new());
    assert_eq!(
        plan,
        vec![
            submit(2, Call::RenounceCandidacy { renouncing: Renouncing::Candidate(2) }),
            Step::Wait { seconds: 360 },
        ]
    );
}

#[test]
fn first_three_members_resign_whoever_they_are() {
    let s = settings(10);
    let accounts = population(12);
    let members = [accounts[7].address, accounts[4].address, accounts[9].address, accounts[1].address];
    assert_eq!(
        vacate_seats(&s, &accounts, &members),
        Ok(vec![resign(7), resign(4), resign(9), Step::Wait { seconds: 12 }])
    );
    let members = [accounts[0].address, accounts[1].address, accounts[3].address];
    assert_eq!(
        vacate_seats(&s, &accounts, &members),
        Ok(vec![resign(0), resign(1), resign(3), Step::Wait { seconds: 12 }])
    );
}

#[test]
fn council_of_fewer_than_three_cannot_give_up_three_seats() {
    let s = settings(10);
    let accounts = population(12);
    let too_few = Err(WorkflowError::InvariantViolation(Violation::TooFewMembers));
    assert_eq!(vacate_seats(&s, &accounts, &[]), too_few);
    assert_eq!(vacate_seats(&s, &accounts, &[accounts[5].address]), too_few);
    assert_eq!(vacate_seats(&s, &accounts, &[accounts[5].address, accounts[6].address]), too_few);
    assert_eq!(vacate_seats(&s, &accounts, &[address(1), address(2)]), too_few);
}

#[test]
fn resigning_member_without_a_test_account_is_fatal() {
    let s = settings(10);
    let accounts = population(12);
    let stranger = address(1);
    let missing = Err(WorkflowError::MissingIdentityMapping);
    assert_eq!(
        vacate_seats(&s, &accounts, &[stranger, accounts[1].address, accounts[2].address]),
        missing
    );
    assert_eq!(
        vacate_seats(&s, &accounts, &[accounts[0].address, accounts[1].address, stranger]),
        missing
    );
    assert_eq!(
        vacate_seats(&s, &accounts, &[accounts[0].address, accounts[1].address, accounts[2].address, stranger]),
        Ok(vec![resign(0), resign(1), resign(2), Step::Wait { seconds: 12 }])
    );
}

#[test]
fn drawn_ballots_are_sorted_free_of_duplicates_and_name_candidates_only() {
    let s = settings(10);
    let accounts = population(12);
    for _ in 0..50 {
        let plan = populate_council(&s, &accounts);
        assert_eq!(plan.len(), 32);
        let mut seen = 0;
        for (at, step) in plan.iter().enumerate() {
            if let Step::Submit { signer, call: Call::ElectionVote { votes, value } } = step {
                assert_eq!(*signer, Signer::Account(at - 20));
                assert_eq!(*value, 100_000);
                assert!(votes.len() <= 9);
                for pair in votes.windows(2) {
                    assert!(pair[0].bytes < pair[1].bytes);
                }
                for v in votes {
                    assert!(accounts[..10].iter().any(|a| a.address == *v));
                }
                seen += 1;
            }
        }
        assert_eq!(seen, 10);
    }
}

#[test]
fn drawn_ballots_vary_from_run_to_run() {
    let s = settings(10);
    let accounts = population(12);
    let mut seen: Vec<Vec<AccountAddress>> = Vec::new();
    for _ in 0..50 {
        for step in populate_council(&s, &accounts) {
            if let Step::Submit { call: Call::ElectionVote { votes, .. }, .. } = step {
                if !seen.contains(&votes) {
                    seen.push(votes);
                }
            }
        }
    }
    assert!(seen.len() > 1);
    assert!(seen.iter().any(|votes| votes.len() > 1));
}

#[test]
fn ten_candidates_and_three_resignations_after_the_election_settled() {
    let s = settings(10);
    let accounts = population(12);
    let plan = populate_council(&s, &accounts);
    assert_eq!(plan.len(), 32);
    for (i, step) in plan.iter().enumerate().take(10) {
        assert_eq!(*step, resign(i));
    }
    for (i, step) in plan.iter().enumerate().skip(10).take(10) {
        assert_eq!(*step, submit(i - 10, Call::SubmitCandidacy { candidate_count: (i - 10) as u32 }));
    }
    assert_eq!(
        plan[30],
        submit(2, Call::RenounceCandidacy { renouncing: Renouncing::Candidate(2) })
    );
    assert_eq!(plan[31], Step::Wait { seconds: 360 });
    // Account 2 has withdrawn, so the council that settles is made of others.
    let members: Vec<AccountAddress> =
        [8usize, 0, 5, 3, 6].iter().map(|k| accounts[*k].address).collect();
    let after = vacate_seats(&s, &accounts, &members).unwrap();
    assert_eq!(after, vec![resign(8), resign(0), resign(5), Step::Wait { seconds: 12 }]);
    let signers: Vec<Signer> = after
        .iter()
        .filter_map(|step| match step {
            Step::Submit { signer, .. } => Some(*signer),
            _ => None,
        })
        .collect();
    assert_eq!(signers.len(), 3);
    for (i, signer) in signers.iter().enumerate() {
        match signer {
            Signer::Account(k) => assert_eq!(accounts[*k].address, members[i]),
            Signer::Sponsor => panic!("a seat is given up by the sponsor"),
        }
        for other in &signers[..i] {
            assert_ne!(signer, other);
        }
    }
}

const EMPTY_DIGEST: [u8; 32] = [
    14, 87, 81, 192, 38, 229, 67, 178, 232, 171, 46, 176, 96, 153, 218, 161, 209, 229, 223, 71,
    119, 143, 119, 135, 250, 171, 69, 205, 241, 47, 227, 168,
];

const ABC_DIGEST: [u8; 32] = [
    189, 221, 129, 60, 99, 66, 57, 114, 49, 113, 239, 63, 238, 152, 87, 155, 148, 150, 78, 59,
    177, 203, 62, 66, 114, 98, 200, 192, 104, 213, 35, 25,
];

/// Runs the motion against scripted replies and returns every directive.
fn run(accounts: &[TestAccount], replies: Vec<Reply>) -> (Motion, Vec<Directive>) {
    let s = settings(3);
    let mut state = Motion::new();
    let mut directives = Vec::new();
    for reply in replies {
        let (next, directive) = external_majority_workflow(&s, accounts, state, reply);
        state = next;
        directives.push(directive);
    }
    (state, directives)
}

fn cooperative(members: Vec<AccountAddress>) -> Vec<Reply> {
    let mut replies = vec![
        Reply::Begin,
        Reply::Members(members.clone()),
        Reply::Counter(Some(4)),
        Reply::Submitted,
        Reply::Elapsed,
        Reply::Counter(Some(5)),
        Reply::Encoded(b"abc".to_vec()),
        Reply::Submitted,
        Reply::Encoded(Vec::new()),
        Reply::Submitted,
        Reply::Elapsed,
        Reply::Counter(Some(3)),
    ];
    for _ in 0..members.len() {
        replies.push(Reply::Submitted);
    }
    replies.push(Reply::Elapsed);
    replies.push(Reply::Submitted);
    replies.push(Reply::Elapsed);
    replies
}

#[test]
fn motion_runs_from_the_spend_proposal_to_the_enactment() {
    let accounts = population(12);
    let members = vec![accounts[7].address, accounts[1].address];
    let (state, directives) = run(&accounts, cooperative(members));
    let preimage_hash = ContentHash { bytes: ABC_DIGEST };
    let motion_hash = ContentHash { bytes: EMPTY_DIGEST };
    let perform = |k: usize, call: Call| Directive::Perform(submit(k, call));
    let vote = Call::CouncilVote { proposal_hash: motion_hash, index: 2, approve: true };
    assert_eq!(
        directives,
        vec![
            Directive::FetchMembers,
            Directive::FetchCounter(Counter::TreasuryProposals),
            perform(10, Call::ProposeSpend { value: 1_000_000, beneficiary: accounts[0].address }),
            Directive::Perform(Step::Wait { seconds: 12 }),
            Directive::FetchCounter(Counter::TreasuryProposals),
            Directive::Encode(Proposal::ApproveProposal { proposal_id: 4 }),
            perform(10, Call::NotePreimage { encoded_proposal: b"abc".to_vec() }),
            Directive::Encode(Proposal::ExternalProposeMajority { proposal_hash: preimage_hash }),
            perform(
                7,
                Call::CouncilPropose {
                    threshold: 8,
                    proposal: Proposal::ExternalProposeMajority { proposal_hash: preimage_hash },
                    length_bound: 42,
                },
            ),
            Directive::Perform(Step::Wait { seconds: 12 }),
            Directive::FetchCounter(Counter::CouncilProposals),
            perform(7, vote.clone()),
            perform(1, vote),
            Directive::Perform(Step::Wait { seconds: 12 }),
            perform(
                7,
                Call::CouncilClose {
                    proposal_hash: motion_hash,
                    index: 2,
                    proposal_weight_bound: 777,
                    length_bound: 99,
                },
            ),
            Directive::Perform(Step::Wait { seconds: 72 }),
            Directive::Finish,
        ]
    );
    assert_eq!(state.pending, Pending::Done);
    assert_eq!(state.preimage_hash, preimage_hash);
    assert_eq!(state.motion_hash, motion_hash);
    assert_eq!(state.motion_index, 2);
}

#[test]
fn finished_motion_stays_finished() {
    let accounts = population(12);
    let (state, _) = run(&accounts, cooperative(vec![accounts[3].address]));
    let s = settings(3);
    let (state, directive) = external_majority_workflow(&s, &accounts, state, Reply::Submitted);
    assert_eq!(directive, Directive::Finish);
    let (state, directive) = external_majority_workflow(&s, &accounts, state, Reply::Failed);
    assert_eq!(directive, Directive::Finish);
    assert_eq!(state.pending, Pending::Done);
}

fn aborted(accounts: &[TestAccount], replies: Vec<Reply>) -> WorkflowError {
    let (state, directives) = run(accounts, replies);
    assert_eq!(state.pending, Pending::Failed);
    match directives.last() {
        Some(Directive::Abort(e)) => {
            assert_eq!(state.failure, Some(*e));
            let s = settings(3);
            let (_, again) = external_majority_workflow(&s, accounts, state, Reply::Submitted);
            assert_eq!(again, Directive::Abort(*e));
            *e
        }
        other => panic!("the motion did not abort: {:?}", other),
    }
}

#[test]
fn empty_council_is_fatal() {
    let accounts = population(12);
    let e = aborted(&accounts, vec![Reply::Begin, Reply::Members(Vec::new())]);
    assert_eq!(e, WorkflowError::InvariantViolation(Violation::CouncilEmpty));
}

#[test]
fn treasury_counter_that_did_not_advance_by_one_is_fatal() {
    let accounts = population(12);
    let mut replies = cooperative(vec![accounts[3].address]);
    replies.truncate(5);
    replies.push(Reply::Counter(Some(6)));
    assert_eq!(aborted(&accounts, replies), WorkflowError::InvariantViolation(Violation::WatermarkMismatch));
}

#[test]
fn treasury_counter_of_zero_or_absent_is_fatal() {
    let accounts = population(12);
    for reading in [Some(0), None] {
        let mut replies = cooperative(vec![accounts[3].address]);
        replies.truncate(5);
        replies.push(Reply::Counter(reading));
        assert_eq!(
            aborted(&accounts, replies),
            WorkflowError::InvariantViolation(Violation::ProposalNotRegistered(Counter::TreasuryProposals))
        );
    }
}

#[test]
fn first_treasury_proposal_is_found_at_index_zero() {
    let accounts = population(12);
    let mut replies = cooperative(vec![accounts[3].address]);
    replies.truncate(6);
    replies[2] = Reply::Counter(None);
    replies[5] = Reply::Counter(Some(1));
    let (_, directives) = run(&accounts, replies);
    assert_eq!(
        directives.last(),
        Some(&Directive::Encode(Proposal::ApproveProposal { proposal_id: 0 }))
    );
}

#[test]
fn absent_council_counter_stands_for_the_first_motion() {
    let accounts = population(12);
    let mut replies = cooperative(vec![accounts[3].address]);
    replies.truncate(12);
    replies[11] = Reply::Counter(None);
    let (state, _) = run(&accounts, replies);
    assert_eq!(state.motion_index, 0);
    assert_eq!(state.pending, Pending::VoteSubmitted);
}

#[test]
fn council_counter_of_zero_is_fatal() {
    let accounts = population(12);
    let mut replies = cooperative(vec![accounts[3].address]);
    replies.truncate(12);
    replies[11] = Reply::Counter(Some(0));
    assert_eq!(
        aborted(&accounts, replies),
        WorkflowError::InvariantViolation(Violation::ProposalNotRegistered(Counter::CouncilProposals))
    );
}

#[test]
fn member_without_a_test_account_is_fatal() {
    let accounts = population(12);
    let stranger = address(1);
    let mut replies = cooperative(vec![stranger]);
    replies.truncate(9);
    assert_eq!(aborted(&accounts, replies), WorkflowError::MissingIdentityMapping);
    let mut replies = cooperative(vec![accounts[3].address, stranger]);
    replies.truncate(13);
    assert_eq!(aborted(&accounts, replies), WorkflowError::MissingIdentityMapping);
}

#[test]
fn transport_failure_is_fatal_at_every_stage() {
    let accounts = population(12);
    let whole = cooperative(vec![accounts[3].address, accounts[4].address]);
    for cut in 0..whole.len() {
        let mut replies = whole.clone();
        replies.truncate(cut);
        replies.push(Reply::Failed);
        assert_eq!(aborted(&accounts, replies), WorkflowError::RemoteCommunicationFailure);
    }
}

#[test]
fn reply_that_answers_another_request_is_fatal() {
    let accounts = population(12);
    let unexpected = WorkflowError::InvariantViolation(Violation::UnexpectedReply);
    assert_eq!(aborted(&accounts, vec![Reply::Submitted]), unexpected);
    assert_eq!(aborted(&accounts, vec![Reply::Begin, Reply::Counter(Some(1))]), unexpected);
    assert_eq!(aborted(&accounts, vec![Reply::Begin, Reply::Begin]), unexpected);
    let mut replies = cooperative(vec![accounts[3].address]);
    replies.truncate(6);
    replies.push(Reply::Elapsed);
    assert_eq!(aborted(&accounts, replies), unexpected);
}

#[test]
fn transition_takes_the_hash_as_it_is_given() {
    let accounts = population(12);
    let s = settings(3);
    let state = Motion {
        pending: Pending::PreimageEncoded,
        members: vec![accounts[5].address],
        ..Motion::new()
    };
    let given = ContentHash { bytes: [0xab; 32] };
    let (state, directive) = transition(&s, &accounts, state, Reply::Encoded(vec![1, 2]), given);
    assert_eq!(state.preimage_hash, given);
    assert_eq!(state.pending, Pending::PreimageNoted);
    assert_eq!(
        directive,
        Directive::Perform(submit(10, Call::NotePreimage { encoded_proposal: vec![1, 2] }))
    );
    let (state, directive) = transition(&s, &accounts, state, Reply::Submitted, ContentHash::blank());
    assert_eq!(
        directive,
        Directive::Encode(Proposal::ExternalProposeMajority { proposal_hash: given })
    );
    let other = ContentHash { bytes: [0xcd; 32] };
    let (state, _) = transition(&s, &accounts, state, Reply::Encoded(vec![3]), other);
    assert_eq!(state.motion_hash, other);
    assert_eq!(state.preimage_hash, given);
}
