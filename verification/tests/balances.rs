use upgrade_harness::balances::{
    dump_balances, reconcile, AccountRecord, BalanceVector, Discrepancy, Snapshot, SnapshotEntry,
    Wide,
};

fn balance(free: u128, reserved: u128, misc_frozen: u128, fee_frozen: u128) -> BalanceVector {
    BalanceVector { free, reserved, misc_frozen, fee_frozen }
}

fn snapshot(rows: &[(&str, BalanceVector)]) -> Snapshot {
    let mut s = Snapshot::new();
    for (address, b) in rows {
        s.record(address.to_string(), *b);
    }
    s
}

#[test]
fn empty_store_gives_an_empty_snapshot() {
    let snapshot = dump_balances(&Vec::new());
    assert_eq!(snapshot.entries.len(), 0);
    assert_eq!(snapshot.get(&"00".to_string()), None);
}

#[test]
fn accounts_are_known_by_their_key_in_lower_case_hex() {
    let records = vec![AccountRecord { key: vec![1, 2, 3, 15, 16, 171, 255], balance: balance(5, 6, 7, 8) }];
    let snapshot = dump_balances(&records);
    assert_eq!(
        snapshot.entries,
        vec![SnapshotEntry { address: "0102030f10abff".to_string(), balance: balance(5, 6, 7, 8) }]
    );
    assert_eq!(snapshot.get(&"0102030f10abff".to_string()), Some(balance(5, 6, 7, 8)));
    assert_eq!(snapshot.get(&"0102030F10ABFF".to_string()), None);
}

#[test]
fn empty_key_is_the_empty_address() {
    let records = vec![AccountRecord { key: vec![], balance: balance(1, 0, 0, 0) }];
    let snapshot = dump_balances(&records);
    assert_eq!(snapshot.entries[0].address, "");
}

#[test]
fn later_record_of_a_key_overrides_the_earlier_one() {
    let records = vec![
        AccountRecord { key: vec![0xaa], balance: balance(1, 0, 0, 0) },
        AccountRecord { key: vec![0xbb], balance: balance(2, 0, 0, 0) },
        AccountRecord { key: vec![0xaa], balance: balance(3, 0, 0, 0) },
    ];
    let snapshot = dump_balances(&records);
    assert_eq!(
        snapshot.entries,
        vec![
            SnapshotEntry { address: "aa".to_string(), balance: balance(3, 0, 0, 0) },
            SnapshotEntry { address: "bb".to_string(), balance: balance(2, 0, 0, 0) },
        ]
    );
}

#[test]
fn unchanged_account_is_left_out() {
    let before = snapshot(&[("aa", balance(10, 20, 30, 40)), ("bb", balance(1, 1, 1, 1))]);
    let after = snapshot(&[("aa", balance(10, 20, 30, 40)), ("bb", balance(1, 1, 1, 1))]);
    assert_eq!(reconcile(&before, &after), Vec::<Discrepancy>::new());
}

#[test]
fn funds_that_only_moved_between_components_are_no_mismatch() {
    let before = snapshot(&[("aa", balance(100, 0, 0, 0))]);
    let after = snapshot(&[("aa", balance(60, 40, 0, 0))]);
    assert_eq!(reconcile(&before, &after), Vec::<Discrepancy>::new());
}

#[test]
fn changed_sum_is_reported_with_both_breakdowns() {
    let before = snapshot(&[("aa", balance(100, 5, 0, 0)), ("bb", balance(7, 0, 0, 0))]);
    let after = snapshot(&[("aa", balance(90, 5, 1, 2)), ("bb", balance(7, 0, 0, 0))]);
    assert_eq!(
        reconcile(&before, &after),
        vec![Discrepancy::Mismatch {
            address: "aa".to_string(),
            before: balance(100, 5, 0, 0),
            after: balance(90, 5, 1, 2),
        }]
    );
}

#[test]
fn account_of_the_later_snapshot_alone_is_reported_as_created() {
    let before = snapshot(&[("aa", balance(1, 0, 0, 0))]);
    let after = snapshot(&[("aa", balance(1, 0, 0, 0)), ("cc", balance(0, 9, 0, 0))]);
    assert_eq!(
        reconcile(&before, &after),
        vec![Discrepancy::Created { address: "cc".to_string(), balance: balance(0, 9, 0, 0) }]
    );
}

#[test]
fn account_of_the_earlier_snapshot_alone_is_passed_over() {
    let before = snapshot(&[("aa", balance(1, 0, 0, 0)), ("gone", balance(5, 5, 5, 5))]);
    let after = snapshot(&[("aa", balance(1, 0, 0, 0))]);
    assert_eq!(reconcile(&before, &after), Vec::<Discrepancy>::new());
}

#[test]
fn reports_follow_the_order_of_the_later_snapshot() {
    let before = snapshot(&[("aa", balance(1, 0, 0, 0)), ("bb", balance(2, 0, 0, 0))]);
    let after = snapshot(&[
        ("zz", balance(9, 0, 0, 0)),
        ("bb", balance(3, 0, 0, 0)),
        ("aa", balance(1, 0, 0, 0)),
        ("mm", balance(0, 0, 0, 1)),
    ]);
    assert_eq!(
        reconcile(&before, &after),
        vec![
            Discrepancy::Created { address: "zz".to_string(), balance: balance(9, 0, 0, 0) },
            Discrepancy::Mismatch {
                address: "bb".to_string(),
                before: balance(2, 0, 0, 0),
                after: balance(3, 0, 0, 0),
            },
            Discrepancy::Created { address: "mm".to_string(), balance: balance(0, 0, 0, 1) },
        ]
    );
}

#[test]
fn transfer_between_two_accounts_end_to_end() {
    let fee = 125;
    let before = snapshot(&[("account0", balance(1_000_001, 0, 0, 0))]);
    let after = snapshot(&[
        ("account0", balance(1_000_001 - 10_000 - fee, 0, 0, 0)),
        ("account1", balance(10_000, 0, 0, 0)),
    ]);
    assert_eq!(before.get(&"account1".to_string()), None);
    assert_eq!(after.get(&"account1".to_string()), Some(balance(10_000, 0, 0, 0)));
    let created = Discrepancy::Created {
        address: "account1".to_string(),
        balance: balance(10_000, 0, 0, 0),
    };
    assert_eq!(
        reconcile(&before, &after),
        vec![
            Discrepancy::Mismatch {
                address: "account0".to_string(),
                before: balance(1_000_001, 0, 0, 0),
                after: balance(989_876, 0, 0, 0),
            },
            created.clone(),
        ]
    );
    let mut adjusted = after.clone();
    adjusted.record("account0".to_string(), balance(989_876 + 10_000 + fee, 0, 0, 0));
    assert_eq!(reconcile(&before, &adjusted), vec![created]);
}

#[test]
fn sum_of_four_components_is_kept_beyond_128_bits() {
    let all = balance(u128::MAX, u128::MAX, u128::MAX, u128::MAX);
    assert_eq!(all.wide_total(), Wide { high: 3, low: u128::MAX - 3 });
    assert_eq!(balance(1, 2, 3, 4).wide_total(), Wide { high: 0, low: 10 });
    assert_eq!(balance(u128::MAX, 1, 0, 0).wide_total(), Wide { high: 1, low: 0 });
}

#[test]
fn sums_that_agree_only_after_wrapping_still_differ() {
    let wrapped = balance(u128::MAX, 1, 0, 0);
    let nothing = balance(0, 0, 0, 0);
    assert!(!wrapped.same_total(&nothing));
    assert!(wrapped.same_total(&balance(1, u128::MAX, 0, 0)));
    let before = snapshot(&[("aa", nothing)]);
    let after = snapshot(&[("aa", wrapped)]);
    assert_eq!(
        reconcile(&before, &after),
        vec![Discrepancy::Mismatch { address: "aa".to_string(), before: nothing, after: wrapped }]
    );
}

#[test]
fn recording_replaces_in_place_and_appends_what_is_new() {
    let mut s = Snapshot::new();
    s.record("aa".to_string(), balance(1, 0, 0, 0));
    s.record("bb".to_string(), balance(2, 0, 0, 0));
    s.record("aa".to_string(), balance(3, 0, 0, 0));
    assert_eq!(s.entries.len(), 2);
    assert_eq!(s.entries[0], SnapshotEntry { address: "aa".to_string(), balance: balance(3, 0, 0, 0) });
    assert_eq!(s.get(&"bb".to_string()), Some(balance(2, 0, 0, 0)));
    assert_eq!(s.get(&"cc".to_string()), None);
}
