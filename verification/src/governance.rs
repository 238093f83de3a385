//! Voting power and its delegation.
//!
//! One unit of locked value is one vote. A holder's weight counts for their
//! delegate while a delegation is active, and for themselves otherwise.

use crate::address::{same_address, Address};
use crate::env::{Env, EnvView, PersistentView};
use crate::table::TableKey;
use vstd::prelude::*;

verus! {

/// Ledger keys of the governance state.
#[derive(Clone, Copy, Debug, PartialEq, Eq)]
pub enum VotingKey {
    /// Value that the holder has locked in the protocol. Locked value backs
    /// voting power: the more locked, the more weight.
    LockedBalance(Address),
    /// The address that the holder has delegated their voting power to.
    Delegation(Address),
    /// Voting power that the address received from other holders through
    /// delegation. Self-owned power stays in `LockedBalance`; this bucket only
    /// tracks inherited weight.
    DelegatedPower(Address),
}

impl TableKey for VotingKey {
    fn same_key(&self, other: &Self) -> (same: bool) {
        match (self, other) {
            (VotingKey::LockedBalance(a), VotingKey::LockedBalance(b)) => same_address(a, b),
            (VotingKey::Delegation(a), VotingKey::Delegation(b)) => same_address(a, b),
            (VotingKey::DelegatedPower(a), VotingKey::DelegatedPower(b)) => same_address(a, b),
            _ => false,
        }
    }
}

/// Voting weight of locked value: 1 unit locked == 1 vote.
pub const VOTES_PER_UNIT: u128 = 1;

/// `amount`, or the largest amount that can be recorded where that is less.
pub open spec fn capped(amount: int) -> int {
    if amount > u128::MAX {
        u128::MAX as int
    } else {
        amount
    }
}

/// `amount`, or zero where that is more.
pub open spec fn floored(amount: int) -> int {
    if amount < 0 {
        0
    } else {
        amount
    }
}

/// The votes that an amount of locked value carries.
pub open spec fn votes(amount: int) -> int {
    capped(amount * VOTES_PER_UNIT)
}

impl EnvView {
    /// The amount recorded under `key`; no entry means zero.
    pub open spec fn voting_amount(self, key: VotingKey) -> u128 {
        if self.persistent.voting_amounts.contains_key(key) {
            self.persistent.voting_amounts[key]
        } else {
            0
        }
    }

    /// Value that `user` has locked.
    pub open spec fn locked_value(self, user: Address) -> u128 {
        self.voting_amount(VotingKey::LockedBalance(user))
    }

    /// Voting power that `holder` received through delegation.
    pub open spec fn delegated_power(self, holder: Address) -> u128 {
        self.voting_amount(VotingKey::DelegatedPower(holder))
    }

    /// The delegate of `delegator`, if they have one.
    pub open spec fn delegate_of(self, delegator: Address) -> Option<Address> {
        let key = VotingKey::Delegation(delegator);
        if self.persistent.delegations.contains_key(key) {
            Some(self.persistent.delegations[key])
        } else {
            None
        }
    }

    /// The address whose votes the locked value of `voter` backs.
    pub open spec fn votes_for(self, voter: Address) -> Address {
        match self.delegate_of(voter) {
            Some(delegate) => delegate,
            None => voter,
        }
    }

    /// Voting power of `user`: their own locked value unless they have
    /// delegated, and what they received.
    pub open spec fn voting_power(self, user: Address) -> u128 {
        let own = if self.delegate_of(user) is Some {
            0
        } else {
            self.locked_value(user) as int
        };
        capped(votes(own) + votes(self.delegated_power(user) as int)) as u128
    }

    /// The environment in which `amount` is recorded under `key`. Zero leaves
    /// no entry.
    pub open spec fn with_voting_amount(self, key: VotingKey, amount: u128) -> EnvView {
        EnvView {
            persistent: PersistentView {
                voting_amounts: if amount == 0 {
                    self.persistent.voting_amounts.remove(key)
                } else {
                    self.persistent.voting_amounts.insert(key, amount)
                },
                ..self.persistent
            },
            ..self
        }
    }

    /// The environment in which the weight that `holder` received has moved as
    /// an amount behind it went from `from` to `to`. It is floored at zero and
    /// capped at the largest amount.
    pub open spec fn power_moved(self, holder: Address, from: u128, to: u128) -> EnvView {
        let received = self.delegated_power(holder) as int;
        let key = VotingKey::DelegatedPower(holder);
        if from == to {
            self
        } else if from < to {
            self.with_voting_amount(key, capped(received + (to - from)) as u128)
        } else {
            self.with_voting_amount(key, floored(received - (from - to)) as u128)
        }
    }

    /// The environment in which `holder`'s delegate, if they have one, gains or
    /// loses what `holder`'s locked value gained or lost.
    pub open spec fn delegate_synced(self, holder: Address, from: u128, to: u128) -> EnvView {
        if self.votes_for(holder) == holder {
            self
        } else {
            self.power_moved(self.votes_for(holder), from, to)
        }
    }

    /// The environment after `user`'s locked value has become `amount`.
    pub open spec fn relocked(self, user: Address, amount: u128) -> EnvView {
        self.with_voting_amount(VotingKey::LockedBalance(user), amount).delegate_synced(
            user,
            self.locked_value(user),
            amount,
        )
    }

    /// The environment in which `delegator`'s delegate is `delegate`.
    pub open spec fn with_delegate(self, delegator: Address, delegate: Address) -> EnvView {
        EnvView {
            persistent: PersistentView {
                delegations: self.persistent.delegations.insert(
                    VotingKey::Delegation(delegator),
                    delegate,
                ),
                ..self.persistent
            },
            ..self
        }
    }

    /// The environment in which `delegator` has no delegate.
    pub open spec fn without_delegate(self, delegator: Address) -> EnvView {
        EnvView {
            persistent: PersistentView {
                delegations: self.persistent.delegations.remove(VotingKey::Delegation(delegator)),
                ..self.persistent
            },
            ..self
        }
    }

    /// The environment after `delegator`'s weight has left their present
    /// delegate, if that is someone else.
    pub open spec fn weight_withdrawn(self, delegator: Address) -> EnvView {
        if self.votes_for(delegator) == delegator {
            self
        } else {
            self.power_moved(self.votes_for(delegator), self.locked_value(delegator), 0)
        }
    }

    /// The environment after `delegator` has delegated to `delegate`.
    pub open spec fn delegated(self, delegator: Address, delegate: Address) -> EnvView {
        if delegate == delegator || self.delegate_of(delegator) == Some(delegate) {
            self
        } else {
            self.weight_withdrawn(delegator).with_delegate(delegator, delegate).power_moved(
                delegate,
                0,
                self.locked_value(delegator),
            )
        }
    }

    /// The environment after `delegator` has taken their weight back.
    pub open spec fn undelegated(self, delegator: Address) -> EnvView {
        if self.delegate_of(delegator) is None {
            self
        } else {
            self.weight_withdrawn(delegator).without_delegate(delegator)
        }
    }
}

fn read_voting_amount(env: &Env, key: &VotingKey) -> (amount: u128)
    ensures
        amount == env@.voting_amount(*key),
{
    match env.persistent.voting_amounts.get(key) {
        Some(amount) => *amount,
        None => 0,
    }
}

fn write_voting_amount(env: &mut Env, key: &VotingKey, amount: u128)
    ensures
        final(env)@ == old(env)@.with_voting_amount(*key, amount),
{
    if amount == 0 {
        env.persistent.voting_amounts.remove(key);
    } else {
        env.persistent.voting_amounts.set(key, amount);
    }
}

/// Record `amount` of newly locked value for `user`, growing their voting
/// power.
pub fn add_locked_value(env: &mut Env, user: &Address, amount: u128)
    ensures
        final(env)@ == if amount == 0 {
            old(env)@
        } else {
            old(env)@.relocked(
                *user,
                capped(old(env)@.locked_value(*user) + amount) as u128,
            )
        },
{
    if amount == 0 {
        return;
    }
    let key = VotingKey::LockedBalance(*user);
    let before: u128 = read_voting_amount(env, &key);
    let after: u128 = before.saturating_add(amount);
    write_voting_amount(env, &key, after);
    sync_delegated_power(env, user, before, after);
}

/// Release `amount` of previously locked value for `user`, shrinking their
/// voting power. Releasing more than recorded saturates at zero.
pub fn remove_locked_value(env: &mut Env, user: &Address, amount: u128)
    ensures
        final(env)@ == if amount == 0 {
            old(env)@
        } else {
            old(env)@.relocked(
                *user,
                floored(old(env)@.locked_value(*user) - amount) as u128,
            )
        },
{
    if amount == 0 {
        return;
    }
    let key = VotingKey::LockedBalance(*user);
    let before: u128 = read_voting_amount(env, &key);
    let after: u128 = before.saturating_sub(amount);
    write_voting_amount(env, &key, after);
    sync_delegated_power(env, user, before, after);
}

/// Overwrite the locked value recorded for `user`.
pub fn set_locked_value(env: &mut Env, user: &Address, amount: u128)
    ensures
        final(env)@ == if old(env)@.locked_value(*user) == amount {
            old(env)@
        } else {
            old(env)@.relocked(*user, amount)
        },
{
    let key = VotingKey::LockedBalance(*user);
    let before: u128 = read_voting_amount(env, &key);
    if before == amount {
        return;
    }
    write_voting_amount(env, &key, amount);
    sync_delegated_power(env, user, before, amount);
}

/// Value the user currently has locked in the protocol.
pub fn get_locked_value(env: &Env, user: &Address) -> (amount: u128)
    ensures
        amount == env@.locked_value(*user),
{
    read_voting_amount(env, &VotingKey::LockedBalance(*user))
}

/// Voting power the address received from other holders through delegation.
pub fn get_delegated_power(env: &Env, holder: &Address) -> (amount: u128)
    ensures
        amount == env@.delegated_power(*holder),
{
    read_voting_amount(env, &VotingKey::DelegatedPower(*holder))
}

/// Delegate `delegator`'s voting power to `delegate`. Re-delegating overwrites
/// the previous delegate and moves the full voting weight with it. Delegating
/// to oneself is accepted as a no-op.
///
/// `delegator` must have authorized the call.
pub fn delegate_votes(env: &mut Env, delegator: &Address, delegate: &Address)
    requires
        old(env)@.authorized.contains(*delegator),
    ensures
        final(env)@ == old(env)@.delegated(*delegator, *delegate),
{
    if let Some(current) = get_delegate(env, delegator) {
        if same_address(&current, delegate) {
            return;
        }
    }
    if same_address(delegate, delegator) {
        return;
    }
    let locked: u128 = get_locked_value(env, delegator);
    let old_target = effective_voter(env, delegator);
    if !same_address(&old_target, delegator) {
        apply_power_delta(env, &old_target, locked, 0);
    }
    env.persistent.delegations.set(&VotingKey::Delegation(*delegator), *delegate);
    apply_power_delta(env, delegate, 0, locked);
}

/// Remove an active delegation so that `delegator`'s voting power counts for
/// themselves again.
///
/// `delegator` must have authorized the call.
pub fn undelegate_votes(env: &mut Env, delegator: &Address)
    requires
        old(env)@.authorized.contains(*delegator),
    ensures
        final(env)@ == old(env)@.undelegated(*delegator),
{
    if let Some(delegate) = get_delegate(env, delegator) {
        let locked: u128 = get_locked_value(env, delegator);
        if !same_address(&delegate, delegator) {
            apply_power_delta(env, &delegate, locked, 0);
        }
        env.persistent.delegations.remove(&VotingKey::Delegation(*delegator));
    }
}

/// The address `delegator` has delegated their voting power to, if any.
pub fn get_delegate(env: &Env, delegator: &Address) -> (delegate: Option<Address>)
    ensures
        delegate == env@.delegate_of(*delegator),
{
    match env.persistent.delegations.get(&VotingKey::Delegation(*delegator)) {
        Some(delegate) => Some(*delegate),
        None => None,
    }
}

/// The address whose votes `voter`'s locked value backs: the delegate when a
/// delegation is active, otherwise the holder themselves.
pub fn effective_voter(env: &Env, voter: &Address) -> (target: Address)
    ensures
        target == env@.votes_for(*voter),
{
    match get_delegate(env, voter) {
        Some(delegate) => delegate,
        None => *voter,
    }
}

/// The votes that `amount` of locked value carries, saturating.
fn weigh(amount: u128) -> (weight: u128)
    ensures
        weight == votes(amount as int),
{
    match amount.checked_mul(VOTES_PER_UNIT) {
        Some(weight) => weight,
        None => u128::MAX,
    }
}

/// Voting power of `user` under the rule that 1 unit locked is 1 vote.
///
/// Composed of the holder's own locked value plus any voting power delegated to
/// them. When the holder has delegated, their own weight counts toward the
/// delegate instead.
pub fn get_voting_power(env: &Env, user: &Address) -> (power: u128)
    ensures
        power == env@.voting_power(*user),
{
    let own: u128 = if get_delegate(env, user).is_some() {
        0
    } else {
        get_locked_value(env, user)
    };
    let received: u128 = get_delegated_power(env, user);
    weigh(own).saturating_add(weigh(received))
}

/// Voting power of every holder in `holders`, paired with its address, in the
/// same order: position `i` of the result describes position `i` of the input.
pub fn get_voting_snapshot(env: &Env, holders: &Vec<Address>) -> (snapshot: Vec<(Address, u128)>)
    ensures
        snapshot@ == holders@.map_values(|holder: Address| (holder, env@.voting_power(holder))),
{
    let mut out: Vec<(Address, u128)> = Vec::new();
    let mut i: usize = 0;
    while i < holders.len()
        invariant
            0 <= i <= holders@.len(),
            out@.len() == i,
            forall|j: int|
                0 <= j < i ==> #[trigger] out@[j] == (holders@[j], env@.voting_power(holders@[j])),
        decreases holders@.len() - i,
    {
        out.push((holders[i], get_voting_power(env, &holders[i])));
        i += 1;
    }
    out
}

/// Re-sync delegation accounting after `holder`'s locked value moved from
/// `old_locked` to `new_locked`. Power only leaves the holder's own bucket when
/// they delegated it away.
fn sync_delegated_power(env: &mut Env, holder: &Address, old_locked: u128, new_locked: u128)
    ensures
        final(env)@ == old(env)@.delegate_synced(*holder, old_locked, new_locked),
{
    let target = effective_voter(env, holder);
    if same_address(&target, holder) {
        return;
    }
    apply_power_delta(env, &target, old_locked, new_locked);
}

/// Move `holder`'s received-power bucket as an amount behind it goes from
/// `from` to `to`, saturating at zero so that a stale delegation record can
/// never trap the contract.
fn apply_power_delta(env: &mut Env, holder: &Address, from: u128, to: u128)
    ensures
        final(env)@ == old(env)@.power_moved(*holder, from, to),
{
    if from == to {
        return;
    }
    let key = VotingKey::DelegatedPower(*holder);
    let current: u128 = read_voting_amount(env, &key);
    let next: u128 = if from < to {
        current.saturating_add(to - from)
    } else {
        current.saturating_sub(from - to)
    };
    write_voting_amount(env, &key, next);
}

} // verus!
