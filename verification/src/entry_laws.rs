//! What the calls on access, the lock, the pause switch, the version and voting power
//! read and write, spelled out on the ledger entries.

use crate::access::{roles_without, AccessControlKey, Role};
use crate::address::Address;
use crate::env::{empty_env, EnvView, InstanceView, PersistentView, TemporaryView};
use crate::governance::{capped, floored, votes, VotingKey};
use crate::pause::PauseKey;
use crate::plan::{DataKey, PlanLimits, RecordsView, VaultKey};
use crate::reentrancy::{lock_held, SecurityKey};
use crate::version::VersionKey;
use vstd::prelude::*;

verus! {

/// A fresh environment has no entries, authorizations, events or transfers.
pub proof fn a_fresh_environment_is_empty(timestamp: u64, limits: PlanLimits)
    ensures
        ({
            let env = empty_env(timestamp, limits);
            &&& env.timestamp == timestamp
            &&& env.limits == limits
            &&& env.authorized.len() == 0
            &&& env.events.len() == 0
            &&& env.transfers.len() == 0
            &&& env.instance.admin is None
            &&& forall|key: AccessControlKey| !(#[trigger] env.persistent.role_lists.contains_key(key))
            &&& forall|key: AccessControlKey| !(
            #[trigger] env.persistent.address_flags.contains_key(key))
            &&& forall|key: VotingKey| !(#[trigger] env.persistent.voting_amounts.contains_key(key))
            &&& forall|key: VotingKey| !(#[trigger] env.persistent.delegations.contains_key(key))
            &&& forall|key: VaultKey| !(#[trigger] env.persistent.plan_vaults.contains_key(key))
            &&& forall|key: DataKey| !(#[trigger] env.persistent.records.has(key))
            &&& forall|key: PauseKey| !(#[trigger] env.instance.pause_flags.contains_key(key))
            &&& forall|key: PauseKey| !(#[trigger] env.instance.operation_counts.contains_key(key))
            &&& forall|key: VersionKey| !(#[trigger] env.instance.versions.contains_key(key))
            &&& forall|key: DataKey| !(#[trigger] env.instance.verifiers.contains_key(key))
            &&& forall|key: SecurityKey| !(#[trigger] env.temporary.locks.contains_key(key))
        }),
{
}

/// What is read of the plan records: whether any kind of entry is under a key, the flag
/// under it, and the claimants under it.
pub proof fn records_are_read_by_key(records: RecordsView, other: RecordsView, key: DataKey)
    ensures
        records.has(key) <==> records.plans.contains_key(key) || records.counts.contains_key(key)
            || records.lists.contains_key(key) || records.flags.contains_key(key)
            || records.claimants.contains_key(key) || records.others.contains_key(key),
        records.flag(key) <==> records.flags.contains_key(key) && records.flags[key],
        records.claimants.contains_key(key) ==> records.claimant_list(key)
            == records.claimants[key],
        !records.claimants.contains_key(key) ==> records.claimant_list(key).len() == 0,
        !(RecordsView::empty().has(key)),
        records.agrees_on(other, key) <==> {
            &&& records.plans.contains_key(key) == other.plans.contains_key(key)
            &&& records.counts.contains_key(key) == other.counts.contains_key(key)
            &&& records.lists.contains_key(key) == other.lists.contains_key(key)
            &&& records.flags.contains_key(key) == other.flags.contains_key(key)
            &&& records.claimants.contains_key(key) == other.claimants.contains_key(key)
            &&& records.others.contains_key(key) == other.others.contains_key(key)
            &&& records.plans.contains_key(key) ==> records.plans[key] == other.plans[key]
            &&& records.counts.contains_key(key) ==> records.counts[key] == other.counts[key]
            &&& records.lists.contains_key(key) ==> records.lists[key] == other.lists[key]
            &&& records.flags.contains_key(key) ==> records.flags[key] == other.flags[key]
            &&& records.claimants.contains_key(key) ==> records.claimants[key]
                == other.claimants[key]
        },
{
}

/// What is written to the plan records: under the one key, or the keys, in question,
/// and nowhere else.
pub proof fn records_are_written_by_key(
    records: RecordsView,
    key: DataKey,
    keys: Set<DataKey>,
    claimant: Address,
    one: DataKey,
)
    ensures
        !records.without(key).has(key),
        one != key ==> records.without(key).agrees_on(records, one),
        keys.contains(one) ==> !records.without_all(keys).has(one),
        !keys.contains(one) ==> records.without_all(keys).agrees_on(records, one),
        ({
            let after = records.with_flag(key);
            &&& after.flags.contains_key(key) && after.flags[key]
            &&& !after.plans.contains_key(key) && !after.counts.contains_key(key)
            &&& !after.lists.contains_key(key) && !after.claimants.contains_key(key)
            &&& !after.others.contains_key(key)
            &&& one != key ==> after.agrees_on(records, one)
        }),
        ({
            let before = records.claimant_list(key);
            let after = records.with_claimant(key, claimant);
            &&& before.contains(claimant) ==> after == records
            &&& !before.contains(claimant) ==> {
                &&& after.claimants.contains_key(key)
                &&& after.claimants[key].len() == before.len() + 1
                &&& after.claimants[key].last() == claimant
                &&& after.claimants[key].drop_last() == before
                &&& !after.plans.contains_key(key) && !after.counts.contains_key(key)
                &&& !after.lists.contains_key(key) && !after.flags.contains_key(key)
                &&& !after.others.contains_key(key)
                &&& one != key ==> after.agrees_on(records, one)
            }
        }),
{
    let before = records.claimant_list(key);
    assert(before.push(claimant).drop_last() =~= before);
}

/// Who holds a role: exactly those on whose list it stands.
pub proof fn roles_are_read_off_the_list(env: EnvView, address: Address, role: Role)
    ensures
        ({
            let lists = env.persistent.role_lists;
            let key = AccessControlKey::Roles(address);
            &&& lists.contains_key(key) ==> env.role_list(address) == lists[key]
            &&& !lists.contains_key(key) ==> env.role_list(address).len() == 0
            &&& env.holds_role(address, role) <==> lists.contains_key(key) && exists|i: int|
                0 <= i < lists[key].len() && #[trigger] lists[key][i] == role
        }),
{
}

/// An assignment writes one list, and there one role at the end; where the role is held
/// it writes nothing.
pub proof fn an_assignment_extends_the_list(env: EnvView, address: Address, role: Role)
    ensures
        ({
            let key = AccessControlKey::Roles(address);
            let before = env.persistent.role_lists;
            let after = env.role_assigned(address, role);
            let lists = after.persistent.role_lists;
            &&& env.holds_role(address, role) ==> after == env
            &&& !env.holds_role(address, role) ==> {
                &&& lists.contains_key(key)
                &&& lists[key].len() == env.role_list(address).len() + 1
                &&& lists[key].drop_last() == env.role_list(address)
                &&& lists[key].last() == role
            }
            &&& lists.remove(key) == before.remove(key)
            &&& after == EnvView {
                persistent: PersistentView { role_lists: lists, ..env.persistent },
                ..env
            }
        }),
{
    let key = AccessControlKey::Roles(address);
    let before = env.role_list(address);
    let after = env.role_assigned(address, role);
    assert(before.push(role).drop_last() =~= before);
    assert(after.persistent.role_lists.remove(key) =~= env.persistent.role_lists.remove(key));
}

/// A revocation writes one list, and takes the role and no other off it, in order; where
/// the role is not held it writes nothing.
pub proof fn a_revocation_shortens_the_list(env: EnvView, address: Address, role: Role)
    ensures
        ({
            let key = AccessControlKey::Roles(address);
            let before = env.persistent.role_lists;
            let after = env.role_revoked(address, role);
            let lists = after.persistent.role_lists;
            &&& !env.holds_role(address, role) ==> after == env
            &&& env.holds_role(address, role) ==> lists.contains_key(key) && lists[key]
                == env.role_list(address).filter(|held: Role| held != role)
            &&& lists.remove(key) == before.remove(key)
            &&& after == EnvView {
                persistent: PersistentView { role_lists: lists, ..env.persistent },
                ..env
            }
        }),
{
    let key = AccessControlKey::Roles(address);
    let after = env.role_revoked(address, role);
    assert(crate::access::other_than(role) =~= (|held: Role| held != role));
    assert(roles_without(env.role_list(address), role) == env.role_list(address).filter(
        |held: Role| held != role,
    ));
    assert(after.persistent.role_lists.remove(key) =~= env.persistent.role_lists.remove(key));
}

/// The address lists hold exactly the addresses whose flag is recorded as set, and a
/// change of one flag writes that flag alone.
pub proof fn address_flags_are_entries(env: EnvView, target: Address, key: AccessControlKey)
    ensures
        ({
            let flags = env.persistent.address_flags;
            let black = AccessControlKey::Blacklisted(target);
            let white = AccessControlKey::Whitelisted(target);
            &&& env.blacklisted(target) <==> flags.contains_key(black) && flags[black]
            &&& env.whitelisted(target) <==> flags.contains_key(white) && flags[white]
            &&& env.address_flag(key) <==> flags.contains_key(key) && flags[key]
            &&& env.address_flag_set(key) == EnvView {
                persistent: PersistentView {
                    address_flags: flags.insert(key, true),
                    ..env.persistent
                },
                ..env
            }
            &&& env.address_flag_cleared(key) == EnvView {
                persistent: PersistentView { address_flags: flags.remove(key), ..env.persistent },
                ..env
            }
        }),
{
}

/// The reentrancy lock is held exactly while its entry is there, and taking it or giving
/// it back touches that entry alone.
pub proof fn the_lock_is_an_entry(env: EnvView)
    ensures
        ({
            let locks = env.temporary.locks;
            let key = SecurityKey::ReentrancyLock;
            &&& lock_held(env) <==> locks.contains_key(key)
            &&& env.locked() == EnvView {
                temporary: TemporaryView { locks: locks.insert(key, true) },
                ..env
            }
            &&& env.unlocked() == EnvView {
                temporary: TemporaryView { locks: locks.remove(key) },
                ..env
            }
        }),
{
}

/// The pause switch and the count of operations are what is recorded. Switching records
/// the new state and leaves no change in progress; entering and leaving count one up and
/// one down, and what does not stay above zero leaves no entry.
pub proof fn the_pause_switch_is_an_entry(env: EnvView, paused: bool)
    ensures
        ({
            let flags = env.instance.pause_flags;
            let counts = env.instance.operation_counts;
            let on = PauseKey::Paused;
            let change = PauseKey::PauseLock;
            let active = PauseKey::ActiveOps;
            let switched = env.pause_switched(paused);
            let entered = env.operation_entered();
            let left = env.operation_left();
            &&& env.paused() <==> flags.contains_key(on) && flags[on]
            &&& env.pause_in_progress() <==> flags.contains_key(change) && flags[change]
            &&& counts.contains_key(active) ==> env.active_ops() == counts[active]
            &&& !counts.contains_key(active) ==> env.active_ops() == 0
            &&& switched.instance.pause_flags.contains_key(on)
            &&& switched.instance.pause_flags[on] == paused
            &&& !switched.instance.pause_flags.contains_key(change)
            &&& switched.instance.pause_flags.remove(on) == flags.remove(on).remove(change)
            &&& switched == EnvView {
                instance: InstanceView {
                    pause_flags: switched.instance.pause_flags,
                    ..env.instance
                },
                ..env
            }
            &&& env.active_ops() < i128::MAX ==> {
                &&& entered.instance.operation_counts.contains_key(active)
                &&& entered.instance.operation_counts[active] == env.active_ops() + 1
            }
            &&& entered.instance.operation_counts.remove(active) == counts.remove(active)
            &&& entered == EnvView {
                instance: InstanceView {
                    operation_counts: entered.instance.operation_counts,
                    ..env.instance
                },
                ..env
            }
            &&& left.instance.operation_counts.contains_key(active) <==> env.active_ops() >= 2
            &&& env.active_ops() >= 2 ==> left.instance.operation_counts[active]
                == env.active_ops() - 1
            &&& left.instance.operation_counts.remove(active) == counts.remove(active)
            &&& left == EnvView {
                instance: InstanceView {
                    operation_counts: left.instance.operation_counts,
                    ..env.instance
                },
                ..env
            }
        }),
{
    let flags = env.instance.pause_flags;
    let counts = env.instance.operation_counts;
    let active = PauseKey::ActiveOps;
    assert(env.pause_switched(paused).instance.pause_flags.remove(PauseKey::Paused)
        =~= flags.remove(PauseKey::Paused).remove(PauseKey::PauseLock));
    assert(env.operation_entered().instance.operation_counts.remove(active) =~= counts.remove(
        active,
    ));
    assert(env.operation_left().instance.operation_counts.remove(active) =~= counts.remove(active));
}

/// The version is what is recorded, and 1 where nothing is; recording one writes that
/// entry alone.
pub proof fn the_version_is_an_entry(env: EnvView, version: u32)
    ensures
        ({
            let versions = env.instance.versions;
            let key = VersionKey::ContractVersion;
            &&& versions.contains_key(key) ==> env.contract_version() == versions[key]
            &&& !versions.contains_key(key) ==> env.contract_version() == 1
            &&& env.with_contract_version(version) == EnvView {
                instance: InstanceView { versions: versions.insert(key, version), ..env.instance },
                ..env
            }
        }),
{
}

/// Amounts stop at the largest that can be recorded, and at zero.
pub proof fn amounts_saturate(amount: int)
    ensures
        amount <= u128::MAX ==> capped(amount) == amount,
        amount > u128::MAX ==> capped(amount) == u128::MAX,
        amount >= 0 ==> floored(amount) == amount,
        amount < 0 ==> floored(amount) == 0,
        0 <= amount <= u128::MAX ==> votes(amount) == amount,
{
}

/// What is recorded about a holder, and what power follows from it: their own locked
/// value while they have no delegate, and what they received.
pub proof fn voting_power_is_read_off_the_entries(env: EnvView, user: Address)
    ensures
        ({
            let amounts = env.persistent.voting_amounts;
            let own = VotingKey::LockedBalance(user);
            let received = VotingKey::DelegatedPower(user);
            let delegations = env.persistent.delegations;
            let delegation = VotingKey::Delegation(user);
            &&& env.locked_value(user) == if amounts.contains_key(own) {
                amounts[own] as int
            } else {
                0
            }
            &&& env.delegated_power(user) == if amounts.contains_key(received) {
                amounts[received] as int
            } else {
                0
            }
            &&& env.delegate_of(user) == if delegations.contains_key(delegation) {
                Some(delegations[delegation])
            } else {
                None
            }
            &&& delegations.contains_key(delegation) ==> env.votes_for(user)
                == delegations[delegation]
            &&& !delegations.contains_key(delegation) ==> env.votes_for(user) == user
            &&& delegations.contains_key(delegation) ==> env.voting_power(user)
                == env.delegated_power(user)
            &&& !delegations.contains_key(delegation) && env.locked_value(user)
                + env.delegated_power(user) <= u128::MAX ==> env.voting_power(user)
                == env.locked_value(user) + env.delegated_power(user)
            &&& !delegations.contains_key(delegation) && env.locked_value(user)
                + env.delegated_power(user) > u128::MAX ==> env.voting_power(user) == u128::MAX
        }),
{
}

/// Whether the two hold the same amount, or both none, under `key`.
pub open spec fn same_amount(left: EnvView, right: EnvView, key: VotingKey) -> bool {
    let l = left.persistent.voting_amounts;
    let r = right.persistent.voting_amounts;
    l.contains_key(key) == r.contains_key(key) && (l.contains_key(key) ==> l[key] == r[key])
}

/// Amounts are the same where the entries are.
pub proof fn same_amounts_are_the_same_entries(left: EnvView, right: EnvView)
    ensures
        forall|key: VotingKey| #[trigger]
            same_amount(left, right, key) <==> {
                &&& left.persistent.voting_amounts.contains_key(key)
                    == right.persistent.voting_amounts.contains_key(key)
                &&& left.persistent.voting_amounts.contains_key(key)
                    ==> left.persistent.voting_amounts[key]
                    == right.persistent.voting_amounts[key]
            },
{
}

/// Locking records the amount, whoever the user has delegated to or received from. It
/// touches the user's own balance and, where they have delegated to somebody else, what
/// that delegate received, which gains or loses as much as the balance. Nothing else
/// changes.
pub proof fn relocking_records_the_amount(env: EnvView, user: Address, amount: u128)
    ensures
        ({
            let after = env.relocked(user, amount);
            let amounts = after.persistent.voting_amounts;
            let own = VotingKey::LockedBalance(user);
            let before = env.locked_value(user);
            &&& after.locked_value(user) == amount
            &&& amounts.contains_key(own) <==> amount != 0
            &&& forall|one: Address|
                one != user ==> #[trigger] after.locked_value(one) == env.locked_value(one)
            &&& after == EnvView {
                persistent: PersistentView { voting_amounts: amounts, ..env.persistent },
                ..env
            }
            &&& match env.persistent.delegations.contains_key(VotingKey::Delegation(user)) {
                true => {
                    let delegate = env.persistent.delegations[VotingKey::Delegation(user)];
                    let received = VotingKey::DelegatedPower(delegate);
                    let old_power = env.delegated_power(delegate);
                    let new_power = after.delegated_power(delegate);
                    &&& forall|key: VotingKey|
                        key != own && key != received ==> #[trigger] same_amount(after, env, key)
                    &&& delegate == user || amount == before ==> same_amount(after, env, received)
                    &&& delegate != user && amount > before ==> if old_power + (amount - before)
                        <= u128::MAX {
                        new_power == old_power + (amount - before)
                    } else {
                        new_power == u128::MAX
                    }
                    &&& delegate != user && amount < before ==> if old_power >= before - amount {
                        new_power == old_power - (before - amount)
                    } else {
                        new_power == 0
                    }
                    &&& delegate != user && amount != before ==> (amounts.contains_key(received)
                        <==> new_power != 0)
                    &&& after.voting_power(user) == if delegate == user {
                        env.voting_power(user)
                    } else {
                        env.delegated_power(user)
                    }
                },
                false => {
                    &&& forall|key: VotingKey| key != own ==> #[trigger] same_amount(after, env, key)
                    &&& amount + env.delegated_power(user) <= u128::MAX ==> after.voting_power(
                        user,
                    ) == amount + env.delegated_power(user)
                    &&& forall|one: Address|
                        one != user ==> #[trigger] after.voting_power(one) == env.voting_power(one)
                },
            }
        }),
{
}

/// Delegating to somebody new records the delegation and nothing else about who
/// delegates to whom, and leaves every locked balance. What the previous delegate, if
/// that was somebody else, received shrinks by the whole weight; what the new one received
/// grows by it. Delegating to oneself, or to the present delegate, changes nothing.
pub proof fn delegating_records_the_delegate(env: EnvView, delegator: Address, delegate: Address)
    ensures
        ({
            let delegation = VotingKey::Delegation(delegator);
            let before = env.persistent.delegations;
            let after = env.delegated(delegator, delegate);
            let weight = env.locked_value(delegator);
            let idle = delegate == delegator || (before.contains_key(delegation)
                && before[delegation] == delegate);
            &&& idle ==> after == env
            &&& !idle ==> {
                &&& after.persistent.delegations == before.insert(delegation, delegate)
                &&& after == EnvView {
                    persistent: PersistentView {
                        delegations: after.persistent.delegations,
                        voting_amounts: after.persistent.voting_amounts,
                        ..env.persistent
                    },
                    ..env
                }
                &&& forall|one: Address| #[trigger]
                    same_amount(after, env, VotingKey::LockedBalance(one))
                &&& after.delegated_power(delegate) == if env.delegated_power(delegate) + weight
                    <= u128::MAX {
                    env.delegated_power(delegate) + weight
                } else {
                    u128::MAX as int
                }
                &&& before.contains_key(delegation) && before[delegation] != delegator ==> {
                    let previous = before[delegation];
                    let received = VotingKey::DelegatedPower(previous);
                    &&& after.delegated_power(previous) == if env.delegated_power(previous)
                        >= weight {
                        env.delegated_power(previous) - weight
                    } else {
                        0
                    }
                    &&& weight != 0 ==> (after.persistent.voting_amounts.contains_key(received)
                        <==> after.delegated_power(previous) != 0)
                }
                &&& forall|one: Address|
                    one != delegate && !(before.contains_key(delegation) && before[delegation]
                        == one && one != delegator) ==> #[trigger] same_amount(
                        after,
                        env,
                        VotingKey::DelegatedPower(one),
                    )
                &&& weight == 0 ==> forall|key: VotingKey| #[trigger] same_amount(after, env, key)
            }
        }),
{
}

/// Taking a delegation back deletes it and nothing else about who delegates to whom, and
/// leaves every locked balance. What the delegate, if that was somebody else, received
/// shrinks by the whole weight. Without a delegation nothing changes.
pub proof fn undelegating_deletes_the_delegation(env: EnvView, delegator: Address)
    ensures
        ({
            let delegation = VotingKey::Delegation(delegator);
            let before = env.persistent.delegations;
            let after = env.undelegated(delegator);
            let weight = env.locked_value(delegator);
            &&& !before.contains_key(delegation) ==> after == env
            &&& before.contains_key(delegation) ==> {
                let previous = before[delegation];
                let received = VotingKey::DelegatedPower(previous);
                &&& after.persistent.delegations == before.remove(delegation)
                &&& after == EnvView {
                    persistent: PersistentView {
                        delegations: after.persistent.delegations,
                        voting_amounts: after.persistent.voting_amounts,
                        ..env.persistent
                    },
                    ..env
                }
                &&& forall|key: VotingKey|
                    key != received ==> #[trigger] same_amount(after, env, key)
                &&& previous == delegator || weight == 0 ==> same_amount(after, env, received)
                &&& previous != delegator ==> after.delegated_power(previous) == if env.delegated_power(
                    previous,
                ) >= weight {
                    env.delegated_power(previous) - weight
                } else {
                    0
                }
                &&& previous != delegator && weight != 0
                    ==> (after.persistent.voting_amounts.contains_key(received)
                    <==> after.delegated_power(previous) != 0)
            }
        }),
{
}

} // verus!
