//! Staking: every test account bonds part of its funds and nominates the
//! validator that leads the active set.

use vstd::prelude::*;
use crate::account::{addresses_of, TestAccount};
use crate::address::AccountAddress;
use crate::command::{push_submit, script, signers_within, submit_as, Call, CallView, Step, StepView};
use crate::settings::{Settings, FEE_RESERVE_TOKENS};

verus! {

/// What the account at `index` has left to bond: a tenth of its funding,
/// less the fee reserve, less one existential deposit for each account
/// that comes after it.
pub open spec fn spare_funds(s: Settings, index: int) -> int {
    s.test_account_funding / 10 - FEE_RESERVE_TOKENS * s.unit - s.existential_deposit * (
    s.nb_test_accounts - 1 - index)
}

/// The amount that the account at `index` bonds: what it has to spare,
/// but never less than the existential deposit.
pub open spec fn bond_amount(s: Settings, index: int) -> int {
    if spare_funds(s, index) > s.existential_deposit {
        spare_funds(s, index)
    } else {
        s.existential_deposit as int
    }
}

/// The bond is at least the existential deposit, and no more than that
/// or a tenth of the funding.
pub proof fn lemma_bond_amount_bounds(s: Settings, index: int)
    requires
        0 <= index < s.nb_test_accounts,
    ensures
        s.existential_deposit <= bond_amount(s, index),
        bond_amount(s, index) <= s.existential_deposit || bond_amount(s, index)
            <= s.test_account_funding / 10,
        bond_amount(s, index) <= u128::MAX,
{
    let later = s.nb_test_accounts - 1 - index;
    assert(s.existential_deposit * later >= 0) by (nonlinear_arith)
        requires
            s.existential_deposit >= 0,
            later >= 0,
    ;
    assert(FEE_RESERVE_TOKENS * s.unit >= 0) by (nonlinear_arith)
        requires
            s.unit >= 0,
    ;
}

/// Computes the amount that the account at `index` bonds.
pub fn bond_value(settings: &Settings, index: u32) -> (amount: u128)
    requires
        index < settings.nb_test_accounts,
    ensures
        amount == bond_amount(*settings, index as int),
        amount >= settings.existential_deposit,
{
    let floor: u128 = settings.existential_deposit;
    let later: u128 = (settings.nb_test_accounts - 1 - index) as u128;
    proof {
        lemma_bond_amount_bounds(*settings, index as int);
        assert(settings.existential_deposit * later >= 0) by (nonlinear_arith)
            requires
                settings.existential_deposit >= 0,
                later >= 0,
        ;
        assert(FEE_RESERVE_TOKENS * settings.unit >= 0) by (nonlinear_arith)
            requires
                settings.unit >= 0,
        ;
    }
    let tenth: u128 = settings.test_account_funding / 10;
    let fees: u128 = match FEE_RESERVE_TOKENS.checked_mul(settings.unit) {
        Some(fees) => fees,
        None => {
            return floor;
        },
    };
    let kept: u128 = match floor.checked_mul(later) {
        Some(kept) => kept,
        None => {
            return floor;
        },
    };
    if tenth < fees {
        return floor;
    }
    let rest: u128 = tenth - fees;
    if rest < kept {
        return floor;
    }
    let spare: u128 = rest - kept;
    if spare > floor {
        spare
    } else {
        floor
    }
}

/// Each of the first `count` accounts bonds, controlled by itself and
/// with the rewards paid to itself.
pub open spec fn bonds(s: Settings, addresses: Seq<AccountAddress>, count: int) -> Seq<StepView> {
    Seq::new(
        count as nat,
        |i: int|
            submit_as(
                i,
                CallView::Bond {
                    controller: addresses[i],
                    value: bond_amount(s, i) as u128,
                    payee: addresses[i],
                },
            ),
    )
}

/// Each of the first `count` accounts nominates `target` and nobody
/// else.
pub open spec fn nominations(target: AccountAddress, count: int) -> Seq<StepView> {
    Seq::new(count as nat, |i: int| submit_as(i, CallView::Nominate { targets: seq![target] }))
}

/// The staking script: nothing while there is no active validator; else
/// all the bonds, then all the nominations of the first validator.
pub open spec fn staking_script(
    s: Settings,
    addresses: Seq<AccountAddress>,
    validators: Seq<AccountAddress>,
) -> Seq<StepView> {
    if validators.len() == 0 {
        Seq::empty()
    } else {
        bonds(s, addresses, s.nb_test_accounts as int) + nominations(
            validators[0],
            s.nb_test_accounts as int,
        )
    }
}

/// Lays out the bonding and nominating of the whole test population,
/// given the active validator set. With no validator nothing is done.
pub fn nominate_all(settings: &Settings, accounts: &[TestAccount], validators: &[AccountAddress]) -> (plan:
    Vec<Step>)
    requires
        settings.nb_test_accounts <= accounts.len(),
    ensures
        script(plan@) == staking_script(*settings, addresses_of(accounts@), validators@),
        signers_within(script(plan@), accounts.len() as int),
{
    let mut plan: Vec<Step> = Vec::new();
    if validators.len() == 0 {
        return plan;
    }
    let n: usize = settings.nb_test_accounts as usize;
    let ghost addresses = addresses_of(accounts@);
    let mut i: usize = 0;
    while i < n
        invariant
            i <= n,
            n == settings.nb_test_accounts,
            n <= accounts.len(),
            addresses == addresses_of(accounts@),
            script(plan@) == bonds(*settings, addresses, i as int),
        decreases n - i,
    {
        let who: AccountAddress = accounts[i].address;
        let value: u128 = bond_value(settings, i as u32);
        push_submit(&mut plan, i, Call::Bond { controller: who, value, payee: who });
        i += 1;
    }
    let target: AccountAddress = validators[0];
    let ghost head = script(plan@);
    i = 0;
    while i < n
        invariant
            i <= n,
            n <= accounts.len(),
            script(plan@) == head + nominations(target, i as int),
        decreases n - i,
    {
        let mut targets: Vec<AccountAddress> = Vec::new();
        targets.push(target);
        push_submit(&mut plan, i, Call::Nominate { targets });
        i += 1;
    }
    plan
}

} // verus!
