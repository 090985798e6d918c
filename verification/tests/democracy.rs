use upgrade_harness::account::TestAccount;
use upgrade_harness::address::{AccountAddress, ContentHash};
use upgrade_harness::command::{Call, Signer, Step};
use upgrade_harness::democracy::{
    propose_upgrade, referendum_votes, upgrade_proposal, vote, Conviction, DemocracyVote, Vote,
};
use upgrade_harness::settings::Settings;

fn settings(nb_voters: u32) -> Settings {
    Settings {
        unit: 1_000,
        test_account_funding: 2_000_000,
        existential_deposit: 10,
        nb_test_accounts: 6,
        nb_councillor_candidates: 3,
        nb_voters,
        block_inclusion_lag: 12,
        weight_bound: 1_000_000,
        length_bound: 100,
    }
}

fn population(count: usize) -> Vec<TestAccount> {
    let mut accounts = Vec::new();
    for i in 0..count {
        let mut bytes = [0u8; 32];
        bytes[31] = i as u8;
        accounts.push(TestAccount {
            index: i as u32,
            identity: format!("//sponsor//{}", i),
            address: AccountAddress { bytes },
        });
    }
    accounts
}

fn ballots(plan: &[Step]) -> Vec<(usize, u8, u128, u32)> {
    let mut found = Vec::new();
    for step in plan {
        if let Step::Submit { signer: Signer::Account(k), call: Call::DemocracyVote { ref_index, vote, balance } } = step {
            found.push((*k, vote.0, *balance, *ref_index));
        }
    }
    found
}

#[test]
fn aye_with_locked4x_sets_the_high_bit() {
    let ballot = DemocracyVote { aye: true, conviction: Conviction::Locked4x };
    assert_eq!(ballot.encode(), Vote(0x84));
}

#[test]
fn nay_with_locked1x_keeps_the_high_bit_clear() {
    let ballot = DemocracyVote { aye: false, conviction: Conviction::Locked1x };
    assert_eq!(ballot.encode(), Vote(0x01));
}

#[test]
fn every_conviction_converts_to_its_level() {
    assert_eq!(u8::from(Conviction::Unlocked), 0);
    assert_eq!(u8::from(Conviction::Locked1x), 1);
    assert_eq!(u8::from(Conviction::Locked2x), 2);
    assert_eq!(u8::from(Conviction::Locked3x), 3);
    assert_eq!(u8::from(Conviction::Locked4x), 4);
    assert_eq!(u8::from(Conviction::Locked5x), 5);
    assert_eq!(u8::from(Conviction::Locked6x), 6);
}

#[test]
fn encoded_byte_keeps_direction_and_level_apart() {
    let all = [
        Conviction::Unlocked,
        Conviction::Locked1x,
        Conviction::Locked2x,
        Conviction::Locked3x,
        Conviction::Locked4x,
        Conviction::Locked5x,
        Conviction::Locked6x,
    ];
    for (level, conviction) in all.iter().enumerate() {
        let aye = DemocracyVote { aye: true, conviction: *conviction }.encode();
        let nay = DemocracyVote { aye: false, conviction: *conviction }.encode();
        assert_eq!(aye.0, 0x80 | level as u8);
        assert_eq!(nay.0, level as u8);
        assert_eq!(aye.0 & 0x7f, level as u8);
        assert_eq!(aye.0 & 0x80, 0x80);
        assert_eq!(nay.0 & 0x80, 0);
    }
}

#[test]
fn unlocked_nay_is_the_zero_byte() {
    let ballot = DemocracyVote { aye: false, conviction: Conviction::Unlocked };
    assert_eq!(ballot.encode(), Vote(0));
}

#[test]
fn approving_vote_splits_four_to_one() {
    let s = settings(10);
    let accounts = population(6);
    let plan = vote(&s, &accounts, 7, true);
    let cast = ballots(&plan);
    assert_eq!(cast.len(), 10);
    let ayes: Vec<_> = cast.iter().filter(|b| b.1 & 0x80 != 0).collect();
    let nays: Vec<_> = cast.iter().filter(|b| b.1 & 0x80 == 0).collect();
    assert_eq!(ayes.len(), 8);
    assert_eq!(nays.len(), 2);
    for b in &ayes {
        assert!(b.0 < 3);
        assert_eq!(b.1, 0x84);
        assert_eq!(b.2, 400_000);
        assert_eq!(b.3, 7);
    }
    for b in &nays {
        assert!(b.0 >= 3 && b.0 < 6);
        assert_eq!(b.1, 0x01);
        assert_eq!(b.2, 1_000);
        assert_eq!(b.3, 7);
    }
}

#[test]
fn rejecting_vote_mirrors_the_split() {
    let s = settings(10);
    let accounts = population(6);
    let plan = vote(&s, &accounts, 3, false);
    let cast = ballots(&plan);
    assert_eq!(cast.len(), 10);
    let ayes: Vec<_> = cast.iter().filter(|b| b.1 & 0x80 != 0).collect();
    let nays: Vec<_> = cast.iter().filter(|b| b.1 & 0x80 == 0).collect();
    assert_eq!(ayes.len(), 2);
    assert_eq!(nays.len(), 8);
    for b in &ayes {
        assert!(b.0 < 3);
        assert_eq!(b.1, 0x81);
        assert_eq!(b.2, 1_000);
    }
    for b in &nays {
        assert!(b.0 >= 3 && b.0 < 6);
        assert_eq!(b.1, 0x04);
        assert_eq!(b.2, 400_000);
    }
}

#[test]
fn drawn_voters_vary_within_their_halves() {
    let s = settings(10);
    let accounts = population(40);
    let mut ayes = Vec::new();
    let mut nays = Vec::new();
    for _ in 0..20 {
        for b in ballots(&vote(&s, &accounts, 0, true)) {
            if b.1 & 0x80 != 0 {
                assert!(b.0 < 20);
                if !ayes.contains(&b.0) {
                    ayes.push(b.0);
                }
            } else {
                assert!(b.0 >= 20 && b.0 < 40);
                if !nays.contains(&b.0) {
                    nays.push(b.0);
                }
            }
        }
    }
    assert!(ayes.len() > 1);
    assert!(nays.len() > 1);
}

#[test]
fn ayes_come_first_and_two_waits_come_last() {
    let s = settings(5);
    let accounts = population(4);
    let plan = vote(&s, &accounts, 0, true);
    assert_eq!(plan.len(), 7);
    for (j, step) in plan.iter().enumerate().take(5) {
        match step {
            Step::Submit { call: Call::DemocracyVote { vote, .. }, .. } => {
                assert_eq!(vote.0 & 0x80 != 0, j < 4);
            }
            other => panic!("step {} is no ballot: {:?}", j, other),
        }
    }
    assert_eq!(plan[5], Step::Wait { seconds: 12 });
    assert_eq!(plan[6], Step::Wait { seconds: 120 });
}

#[test]
fn seven_voters_split_five_to_two() {
    let s = settings(7);
    let accounts = population(6);
    let cast = ballots(&vote(&s, &accounts, 1, true));
    assert_eq!(cast.iter().filter(|b| b.1 & 0x80 != 0).count(), 5);
    assert_eq!(cast.iter().filter(|b| b.1 & 0x80 == 0).count(), 2);
    let cast = ballots(&vote(&s, &accounts, 1, false));
    assert_eq!(cast.iter().filter(|b| b.1 & 0x80 != 0).count(), 1);
    assert_eq!(cast.iter().filter(|b| b.1 & 0x80 == 0).count(), 6);
}

#[test]
fn no_voters_leave_only_the_waits() {
    let s = settings(0);
    let accounts = population(0);
    let plan = vote(&s, &accounts, 0, true);
    assert_eq!(plan, vec![Step::Wait { seconds: 12 }, Step::Wait { seconds: 120 }]);
}

#[test]
fn given_voters_cast_the_ballots_in_their_order() {
    let s = settings(5);
    let accounts = population(6);
    let voters = vec![2usize, 0, 0, 1, 5];
    let plan = referendum_votes(&s, &accounts, 9, true, &voters);
    let aye = |k: usize| Step::Submit {
        signer: Signer::Account(k),
        call: Call::DemocracyVote { ref_index: 9, vote: Vote(0x84), balance: 400_000 },
    };
    let nay = |k: usize| Step::Submit {
        signer: Signer::Account(k),
        call: Call::DemocracyVote { ref_index: 9, vote: Vote(0x01), balance: 1_000 },
    };
    assert_eq!(
        plan,
        vec![
            aye(2),
            aye(0),
            aye(0),
            aye(1),
            nay(5),
            Step::Wait { seconds: 12 },
            Step::Wait { seconds: 120 },
        ]
    );
}

#[test]
fn upgrade_is_noted_by_one_account_and_proposed_by_the_next() {
    let accounts = population(22);
    let plan = propose_upgrade(&accounts, b"abc".to_vec(), 1_000_000);
    let digest: [u8; 32] = [
        189, 221, 129, 60, 99, 66, 57, 114, 49, 113, 239, 63, 238, 152, 87, 155, 148, 150, 78, 59,
        177, 203, 62, 66, 114, 98, 200, 192, 104, 213, 35, 25,
    ];
    assert_eq!(
        plan,
        vec![
            Step::Submit {
                signer: Signer::Account(20),
                call: Call::NotePreimage { encoded_proposal: b"abc".to_vec() },
            },
            Step::Submit {
                signer: Signer::Account(21),
                call: Call::DemocracyPropose {
                    proposal_hash: ContentHash { bytes: digest },
                    value: 1_000_000,
                },
            },
        ]
    );
}

#[test]
fn upgrade_proposal_carries_the_given_hash() {
    let accounts = population(22);
    let hash = ContentHash { bytes: [7u8; 32] };
    let plan = upgrade_proposal(&accounts, vec![1, 2, 3], hash, 55);
    assert_eq!(plan.len(), 2);
    assert_eq!(
        plan[1],
        Step::Submit {
            signer: Signer::Account(21),
            call: Call::DemocracyPropose { proposal_hash: hash, value: 55 },
        }
    );
}
