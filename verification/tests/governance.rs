//! Voting weight: 1 unit of locked value is 1 vote, plus delegation. A holder's
//! weight counts for their delegate while a delegation is active, and returns to
//! the holder when they undelegate.

use inheritx_access::address::Address;
use inheritx_access::env::Env;
use inheritx_access::governance::{
    add_locked_value, delegate_votes, effective_voter, get_delegate, get_delegated_power,
    get_locked_value, get_voting_power, get_voting_snapshot, remove_locked_value,
    set_locked_value, undelegate_votes, VotingKey,
};
use inheritx_access::plan::PlanLimits;

fn new_env() -> Env {
    Env::new(1_000, PlanLimits { max_beneficiaries: 10, max_will_versions: 10 })
}

fn addr(n: u8) -> Address {
    Address::Contract([n; 32])
}

fn delegate(env: &mut Env, from: &Address, to: &Address) {
    env.authorize(from);
    delegate_votes(env, from, to);
}

fn undelegate(env: &mut Env, from: &Address) {
    env.authorize(from);
    undelegate_votes(env, from);
}

#[test]
fn locked_value_maps_one_to_one_onto_votes() {
    let mut env = new_env();
    let holder = addr(1);

    assert_eq!(get_voting_power(&env, &holder), 0);

    add_locked_value(&mut env, &holder, 1_000);
    assert_eq!(get_locked_value(&env, &holder), 1_000);
    assert_eq!(get_voting_power(&env, &holder), 1_000);

    add_locked_value(&mut env, &holder, 500);
    assert_eq!(get_voting_power(&env, &holder), 1_500);
}

#[test]
fn removing_locked_value_shrinks_votes_and_floors_at_zero() {
    let mut env = new_env();
    let holder = addr(1);

    add_locked_value(&mut env, &holder, 1_000);
    remove_locked_value(&mut env, &holder, 400);
    assert_eq!(get_voting_power(&env, &holder), 600);

    // Releasing more than recorded saturates rather than wrapping.
    remove_locked_value(&mut env, &holder, 10_000);
    assert_eq!(get_voting_power(&env, &holder), 0);
    assert_eq!(get_locked_value(&env, &holder), 0);
}

#[test]
fn zero_and_negative_ish_adjustments_are_noops() {
    let mut env = new_env();
    let holder = addr(1);

    add_locked_value(&mut env, &holder, 0);
    assert_eq!(get_voting_power(&env, &holder), 0);

    add_locked_value(&mut env, &holder, 100);
    remove_locked_value(&mut env, &holder, 0);
    set_locked_value(&mut env, &holder, 100);
    assert_eq!(get_voting_power(&env, &holder), 100);
}

#[test]
fn set_locked_value_overwrites_and_clears() {
    let mut env = new_env();
    let holder = addr(1);

    add_locked_value(&mut env, &holder, 1_000);
    set_locked_value(&mut env, &holder, 250);
    assert_eq!(get_voting_power(&env, &holder), 250);

    set_locked_value(&mut env, &holder, 0);
    assert_eq!(get_voting_power(&env, &holder), 0);
}

#[test]
fn delegating_moves_the_whole_weight_to_the_delegate() {
    let mut env = new_env();
    let holder = addr(1);
    let target = addr(2);

    add_locked_value(&mut env, &holder, 1_000);
    delegate(&mut env, &holder, &target);

    // The holder keeps their locked value but no longer counts it themselves.
    assert_eq!(get_locked_value(&env, &holder), 1_000);
    assert_eq!(get_voting_power(&env, &holder), 0);
    assert_eq!(get_voting_power(&env, &target), 1_000);
    assert_eq!(get_delegate(&env, &holder), Some(target));
    assert_eq!(effective_voter(&env, &holder), target);
}

#[test]
fn undelegating_returns_the_weight_to_the_holder() {
    let mut env = new_env();
    let holder = addr(1);
    let target = addr(2);

    add_locked_value(&mut env, &holder, 1_000);
    delegate(&mut env, &holder, &target);
    undelegate(&mut env, &holder);

    assert_eq!(get_voting_power(&env, &holder), 1_000);
    assert_eq!(get_voting_power(&env, &target), 0);
    assert_eq!(get_delegate(&env, &holder), None);
    assert_eq!(effective_voter(&env, &holder), holder);
}

#[test]
fn redelegating_moves_the_weight_from_the_old_delegate_to_the_new_one() {
    let mut env = new_env();
    let holder = addr(1);
    let first = addr(2);
    let second = addr(3);

    add_locked_value(&mut env, &holder, 1_000);
    delegate(&mut env, &holder, &first);
    delegate(&mut env, &holder, &second);

    // The old delegate is made whole again rather than keeping a stale claim.
    assert_eq!(get_voting_power(&env, &first), 0);
    assert_eq!(get_voting_power(&env, &second), 1_000);
    assert_eq!(get_voting_power(&env, &holder), 0);
}

#[test]
fn locked_value_changes_track_an_active_delegation() {
    let mut env = new_env();
    let holder = addr(1);
    let target = addr(2);

    add_locked_value(&mut env, &holder, 1_000);
    delegate(&mut env, &holder, &target);

    // Locking more after delegating credits the delegate, not the holder.
    add_locked_value(&mut env, &holder, 500);
    assert_eq!(get_voting_power(&env, &target), 1_500);
    assert_eq!(get_voting_power(&env, &holder), 0);

    // And unlocking pulls it back out of the delegate.
    remove_locked_value(&mut env, &holder, 1_200);
    assert_eq!(get_voting_power(&env, &target), 300);
}

#[test]
fn set_locked_value_resyncs_an_active_delegation() {
    let mut env = new_env();
    let holder = addr(1);
    let target = addr(2);

    add_locked_value(&mut env, &holder, 1_000);
    delegate(&mut env, &holder, &target);

    set_locked_value(&mut env, &holder, 200);
    assert_eq!(get_voting_power(&env, &target), 200);
}

#[test]
fn self_delegation_is_a_noop_that_keeps_votes_with_the_holder() {
    let mut env = new_env();
    let holder = addr(1);

    add_locked_value(&mut env, &holder, 1_000);
    delegate(&mut env, &holder, &holder);

    // Equivalent to not delegating at all.
    assert_eq!(get_voting_power(&env, &holder), 1_000);
    assert_eq!(get_delegate(&env, &holder), None);
}

#[test]
fn undelegating_without_a_delegation_is_a_noop() {
    let mut env = new_env();
    let holder = addr(1);

    add_locked_value(&mut env, &holder, 1_000);
    undelegate(&mut env, &holder);
    assert_eq!(get_voting_power(&env, &holder), 1_000);
}

#[test]
fn a_delegate_keeps_its_own_weight_and_receives_the_deposited_weight() {
    let mut env = new_env();
    let target = addr(1);
    let holder = addr(2);

    add_locked_value(&mut env, &target, 300);
    add_locked_value(&mut env, &holder, 700);
    delegate(&mut env, &holder, &target);

    // Own locked value plus the delegated weight.
    assert_eq!(get_voting_power(&env, &target), 1_000);
    assert_eq!(get_delegated_power(&env, &target), 700);
}

#[test]
fn many_delegates_accumulate_on_one_address() {
    let mut env = new_env();
    let target = addr(1);

    let mut total = 0u128;
    for i in 0..5 {
        let holder = addr(10 + i);
        let amount = 100u128;
        add_locked_value(&mut env, &holder, amount);
        delegate(&mut env, &holder, &target);
        total += amount;
    }

    assert_eq!(get_voting_power(&env, &target), total);
}

#[test]
fn snapshot_returns_powers_in_input_order() {
    let mut env = new_env();
    let a = addr(1);
    let b = addr(2);
    let c = addr(3);

    add_locked_value(&mut env, &a, 100);
    add_locked_value(&mut env, &b, 200);
    add_locked_value(&mut env, &c, 300);
    delegate(&mut env, &c, &b);

    let holders = vec![a, b, c];
    let snap = get_voting_snapshot(&env, &holders);

    assert_eq!(snap.len(), 3);
    assert_eq!(snap[0], (a, 100));
    assert_eq!(snap[1], (b, 500)); // own 200 + 300 delegated
    assert_eq!(snap[2], (c, 0));
}

#[test]
fn snapshot_of_an_empty_holder_set_is_empty() {
    let env = new_env();
    let holders: Vec<Address> = Vec::new();
    assert!(get_voting_snapshot(&env, &holders).is_empty());
}

#[test]
fn delegation_requires_the_holders_own_authorization() {
    let mut env = new_env();
    let holder = addr(1);
    let target = addr(2);
    add_locked_value(&mut env, &holder, 100);

    // Only the holder can redirect their own weight: a delegate cannot act on
    // someone else's behalf.
    assert!(!env.is_authorized(&holder));
    delegate(&mut env, &holder, &target);
    assert!(env.is_authorized(&holder));
    assert!(!env.is_authorized(&target));
    assert_eq!(get_voting_power(&env, &target), 100);
    assert_eq!(get_voting_power(&env, &holder), 0);
}

#[test]
fn locked_value_saturates_at_the_largest_amount() {
    let mut env = new_env();
    let holder = addr(1);

    add_locked_value(&mut env, &holder, u128::MAX - 1);
    add_locked_value(&mut env, &holder, 5);
    assert_eq!(get_locked_value(&env, &holder), u128::MAX);
}

#[test]
fn received_power_and_voting_power_saturate() {
    let mut env = new_env();
    let first = addr(1);
    let second = addr(2);
    let target = addr(3);

    add_locked_value(&mut env, &first, u128::MAX);
    add_locked_value(&mut env, &second, 7);
    add_locked_value(&mut env, &target, 9);
    delegate(&mut env, &first, &target);
    delegate(&mut env, &second, &target);
    assert_eq!(get_delegated_power(&env, &target), u128::MAX);
    assert_eq!(get_voting_power(&env, &target), u128::MAX);

    // A bucket that saturated floors at zero when the weight is taken back.
    undelegate(&mut env, &first);
    undelegate(&mut env, &second);
    assert_eq!(get_delegated_power(&env, &target), 0);
    assert_eq!(get_voting_power(&env, &target), 9);
}

#[test]
fn weights_beyond_the_signed_range_move_in_full() {
    let mut env = new_env();
    let holder = addr(1);
    let first = addr(2);
    let second = addr(3);
    let weight = (i128::MAX as u128) + 100;

    add_locked_value(&mut env, &holder, weight);
    delegate(&mut env, &holder, &first);
    assert_eq!(get_voting_power(&env, &first), weight);
    delegate(&mut env, &holder, &second);
    assert_eq!(get_voting_power(&env, &first), 0);
    assert_eq!(get_voting_power(&env, &second), weight);
}

#[test]
fn delegating_to_the_present_delegate_changes_nothing() {
    let mut env = new_env();
    let holder = addr(1);
    let target = addr(2);

    add_locked_value(&mut env, &holder, 40);
    delegate(&mut env, &holder, &target);
    delegate(&mut env, &holder, &target);
    assert_eq!(get_delegated_power(&env, &target), 40);
}

#[test]
fn cleared_amounts_leave_no_entry() {
    let mut env = new_env();
    let holder = addr(1);
    let target = addr(2);

    add_locked_value(&mut env, &holder, 40);
    delegate(&mut env, &holder, &target);
    assert!(env.persistent.voting_amounts.has(&VotingKey::DelegatedPower(target)));
    set_locked_value(&mut env, &holder, 0);
    assert!(!env.persistent.voting_amounts.has(&VotingKey::LockedBalance(holder)));
    assert!(!env.persistent.voting_amounts.has(&VotingKey::DelegatedPower(target)));
}

#[test]
fn delegation_is_not_transitive_and_conserves_votes() {
    let mut env = new_env();
    let holders = vec![addr(1), addr(2), addr(3), addr(4)];
    let amounts = vec![10u128, 200, 3_000, 40_000];
    for i in 0..4 {
        add_locked_value(&mut env, &holders[i], amounts[i]);
    }
    delegate(&mut env, &holders[0], &holders[1]);
    delegate(&mut env, &holders[1], &holders[2]);

    let snap = get_voting_snapshot(&env, &holders);
    // The second holder passes on their own weight only.
    assert_eq!(snap[0].1, 0);
    assert_eq!(snap[1].1, 10);
    assert_eq!(snap[2].1, 3_200);
    assert_eq!(snap[3].1, 40_000);
    assert_eq!(snap.iter().map(|pair| pair.1).sum::<u128>(), 43_210);
}

#[test]
fn accounts_and_contracts_with_the_same_bytes_are_different_holders() {
    let mut env = new_env();
    let contract = Address::Contract([7; 32]);
    let account = Address::Account([7; 32]);

    add_locked_value(&mut env, &contract, 5);
    assert_eq!(get_voting_power(&env, &account), 0);
    delegate(&mut env, &contract, &account);
    assert_eq!(get_voting_power(&env, &account), 5);
    assert_eq!(get_voting_power(&env, &contract), 0);
}

#[test]
fn taking_a_fresh_delegation_back_restores_every_entry() {
    let mut env = new_env();
    let holder = addr(1);
    let delegate = addr(2);
    let earlier = addr(3);
    add_locked_value(&mut env, &holder, 1_000);
    add_locked_value(&mut env, &earlier, 70);
    env.authorize(&earlier);
    delegate_votes(&mut env, &earlier, &delegate);

    env.authorize(&holder);
    delegate_votes(&mut env, &holder, &delegate);
    assert_eq!(get_delegated_power(&env, &delegate), 1_070);
    undelegate_votes(&mut env, &holder);

    assert_eq!(get_locked_value(&env, &holder), 1_000);
    assert_eq!(get_delegated_power(&env, &delegate), 70);
    assert_eq!(get_delegate(&env, &holder), None);
    assert_eq!(get_delegate(&env, &earlier), Some(delegate));
    assert!(!env.persistent.voting_amounts.has(&VotingKey::DelegatedPower(holder)));
}
