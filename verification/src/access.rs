//! Roles, and the sanctions and beneficiary lists.

use crate::address::{same_address, Address};
use crate::env::{Env, EnvView, PersistentView};
use crate::reentrancy::{lock_held, reentrancy_enter_or_panic, reentrancy_exit};
use crate::table::TableKey;
use vstd::prelude::*;

verus! {

/// The four roles recognised across the contracts.
#[derive(Clone, Copy, Debug, PartialEq, Eq, Structural)]
pub enum Role {
    Admin,
    Guardian,
    Beneficiary,
    Owner,
}

/// Per-address ledger keys of the role lists and of the two address lists.
#[derive(Clone, Copy, Debug, PartialEq, Eq)]
pub enum AccessControlKey {
    Roles(Address),
    Blacklisted(Address),
    Whitelisted(Address),
}

impl TableKey for AccessControlKey {
    fn same_key(&self, other: &Self) -> (same: bool) {
        match (self, other) {
            (AccessControlKey::Roles(a), AccessControlKey::Roles(b)) => same_address(a, b),
            (AccessControlKey::Blacklisted(a), AccessControlKey::Blacklisted(b)) => same_address(
                a,
                b,
            ),
            (AccessControlKey::Whitelisted(a), AccessControlKey::Whitelisted(b)) => same_address(
                a,
                b,
            ),
            _ => false,
        }
    }
}

/// Tells the roles other than `role`.
pub open spec fn other_than(role: Role) -> spec_fn(Role) -> bool {
    |held: Role| held != role
}

/// The roles of `list` other than `role`, in their order.
pub open spec fn roles_without(list: Seq<Role>, role: Role) -> Seq<Role> {
    list.filter(other_than(role))
}

impl EnvView {
    /// The roles recorded for `address`, in the order in which they were
    /// assigned. No entry means no roles.
    pub open spec fn role_list(self, address: Address) -> Seq<Role> {
        let lists = self.persistent.role_lists;
        let key = AccessControlKey::Roles(address);
        if lists.contains_key(key) {
            lists[key]
        } else {
            Seq::empty()
        }
    }

    /// Whether `address` holds `role`.
    pub open spec fn holds_role(self, address: Address, role: Role) -> bool {
        self.role_list(address).contains(role)
    }

    /// The environment in which `list` is recorded for `address`.
    pub open spec fn with_role_list(self, address: Address, list: Seq<Role>) -> EnvView {
        EnvView {
            persistent: PersistentView {
                role_lists: self.persistent.role_lists.insert(
                    AccessControlKey::Roles(address),
                    list,
                ),
                ..self.persistent
            },
            ..self
        }
    }

    /// The environment after `role` is assigned to `address`.
    pub open spec fn role_assigned(self, address: Address, role: Role) -> EnvView {
        if self.holds_role(address, role) {
            self
        } else {
            self.with_role_list(address, self.role_list(address).push(role))
        }
    }

    /// The environment after `role` is revoked from `address`.
    pub open spec fn role_revoked(self, address: Address, role: Role) -> EnvView {
        if self.holds_role(address, role) {
            self.with_role_list(address, roles_without(self.role_list(address), role))
        } else {
            self
        }
    }

    /// The flag recorded under `key`; no entry means `false`.
    pub open spec fn address_flag(self, key: AccessControlKey) -> bool {
        self.persistent.address_flags.contains_key(key) && self.persistent.address_flags[key]
    }

    /// Whether `target` is on the blacklist.
    pub open spec fn blacklisted(self, target: Address) -> bool {
        self.address_flag(AccessControlKey::Blacklisted(target))
    }

    /// Whether `target` is on the whitelist.
    pub open spec fn whitelisted(self, target: Address) -> bool {
        self.address_flag(AccessControlKey::Whitelisted(target))
    }

    /// The environment in which the flag under `key` is set.
    pub open spec fn address_flag_set(self, key: AccessControlKey) -> EnvView {
        EnvView {
            persistent: PersistentView {
                address_flags: self.persistent.address_flags.insert(key, true),
                ..self.persistent
            },
            ..self
        }
    }

    /// The environment without an entry under `key`.
    pub open spec fn address_flag_cleared(self, key: AccessControlKey) -> EnvView {
        EnvView {
            persistent: PersistentView {
                address_flags: self.persistent.address_flags.remove(key),
                ..self.persistent
            },
            ..self
        }
    }
}

/// Assign `role` to `address`. Idempotent: does nothing if already assigned.
pub fn assign_role(env: &mut Env, address: &Address, role: Role)
    ensures
        final(env)@ == old(env)@.role_assigned(*address, role),
{
    if has_role(env, address, role) {
        return;
    }
    let key = AccessControlKey::Roles(*address);
    let mut roles: Vec<Role> = Vec::new();
    if let Some(existing) = env.persistent.role_lists.get(&key) {
        let mut i: usize = 0;
        while i < existing.len()
            invariant
                0 <= i <= existing@.len(),
                roles@ == existing@.take(i as int),
            decreases existing@.len() - i,
        {
            roles.push(existing[i]);
            i += 1;
            assert(existing@.take(i as int).drop_last() =~= existing@.take(i - 1));
        }
        assert(existing@.take(i as int) =~= existing@);
    }
    assert(roles@ == old(env)@.role_list(*address));
    roles.push(role);
    env.persistent.role_lists.set(&key, roles);
}

/// Revoke `role` from `address`. Idempotent: does nothing if not assigned.
///
/// The call runs under the reentrancy lock, which must be free.
pub fn revoke_role(env: &mut Env, address: &Address, role: Role)
    requires
        !lock_held(old(env)@),
    ensures
        final(env)@ == old(env)@.role_revoked(*address, role),
{
    reentrancy_enter_or_panic(env);
    if has_role(env, address, role) {
        let key = AccessControlKey::Roles(*address);
        let mut updated: Vec<Role> = Vec::new();
        if let Some(roles) = env.persistent.role_lists.get(&key) {
            let mut i: usize = 0;
            proof {
                assert(roles_without(roles@.take(0), role) =~= Seq::empty()) by {
                    reveal(Seq::filter);
                }
            }
            while i < roles.len()
                invariant
                    0 <= i <= roles@.len(),
                    updated@ == roles_without(roles@.take(i as int), role),
                decreases roles@.len() - i,
            {
                proof {
                    reveal(Seq::filter);
                    assert(roles@.take(i + 1).drop_last() =~= roles@.take(i as int));
                }
                if roles[i] != role {
                    updated.push(roles[i]);
                }
                i += 1;
            }
            assert(roles@.take(i as int) =~= roles@);
        }
        assert(updated@ == roles_without(old(env)@.role_list(*address), role));
        env.persistent.role_lists.set(&key, updated);
    }
    reentrancy_exit(env);
    proof {
        let locks = old(env)@.temporary.locks;
        assert(old(env)@.locked().unlocked().temporary.locks =~= locks);
    }
}

/// Return `true` if `address` currently holds `role`.
pub fn has_role(env: &Env, address: &Address, role: Role) -> (holds: bool)
    ensures
        holds == env@.holds_role(*address, role),
{
    let key = AccessControlKey::Roles(*address);
    if let Some(roles) = env.persistent.role_lists.get(&key) {
        let mut i: usize = 0;
        while i < roles.len()
            invariant
                0 <= i <= roles@.len(),
                roles@ == env@.role_list(*address),
                forall|j: int| 0 <= j < i ==> roles@[j] != role,
            decreases roles@.len() - i,
        {
            if roles[i] == role {
                assert(roles@[i as int] == role);
                return true;
            }
            i += 1;
        }
    }
    false
}

/// Require that `address` holds `role`; returns `contract_error` otherwise.
pub fn require_role<E: Copy>(
    env: &Env,
    address: &Address,
    role: Role,
    contract_error: E,
) -> (result: Result<(), E>)
    ensures
        result == if env@.holds_role(*address, role) {
            Ok(())
        } else {
            Err::<(), E>(contract_error)
        },
{
    if has_role(env, address, role) {
        Ok(())
    } else {
        Err(contract_error)
    }
}

fn read_flag(env: &Env, key: &AccessControlKey) -> (flag: bool)
    ensures
        flag == env@.address_flag(*key),
{
    match env.persistent.address_flags.get(key) {
        Some(flag) => *flag,
        None => false,
    }
}

/// Add `target` to the persistent sanctioned-address blacklist.
pub fn blacklist_address(env: &mut Env, target: &Address)
    ensures
        final(env)@ == old(env)@.address_flag_set(AccessControlKey::Blacklisted(*target)),
{
    env.persistent.address_flags.set(&AccessControlKey::Blacklisted(*target), true);
}

/// Remove `target` from the persistent sanctioned-address blacklist.
pub fn unblacklist_address(env: &mut Env, target: &Address)
    ensures
        final(env)@ == old(env)@.address_flag_cleared(AccessControlKey::Blacklisted(*target)),
{
    env.persistent.address_flags.remove(&AccessControlKey::Blacklisted(*target));
}

/// Return `true` when `target` is currently blacklisted.
pub fn is_blacklisted(env: &Env, target: &Address) -> (listed: bool)
    ensures
        listed == env@.blacklisted(*target),
{
    read_flag(env, &AccessControlKey::Blacklisted(*target))
}

/// Reject a blacklisted address with the caller's contract error.
pub fn require_not_blacklisted<E: Copy>(
    env: &Env,
    target: &Address,
    contract_error: E,
) -> (result: Result<(), E>)
    ensures
        result == if env@.blacklisted(*target) {
            Err::<(), E>(contract_error)
        } else {
            Ok(())
        },
{
    if is_blacklisted(env, target) {
        Err(contract_error)
    } else {
        Ok(())
    }
}

/// Add `target` to the persistent beneficiary whitelist used to gate payouts on
/// restricted assets.
pub fn whitelist_address(env: &mut Env, target: &Address)
    ensures
        final(env)@ == old(env)@.address_flag_set(AccessControlKey::Whitelisted(*target)),
{
    env.persistent.address_flags.set(&AccessControlKey::Whitelisted(*target), true);
}

/// Remove `target` from the persistent beneficiary whitelist.
pub fn unwhitelist_address(env: &mut Env, target: &Address)
    ensures
        final(env)@ == old(env)@.address_flag_cleared(AccessControlKey::Whitelisted(*target)),
{
    env.persistent.address_flags.remove(&AccessControlKey::Whitelisted(*target));
}

/// Return `true` when `target` is currently whitelisted.
pub fn is_whitelisted(env: &Env, target: &Address) -> (listed: bool)
    ensures
        listed == env@.whitelisted(*target),
{
    read_flag(env, &AccessControlKey::Whitelisted(*target))
}

/// Reject an address that is not whitelisted, with the caller's contract error.
pub fn require_whitelisted<E: Copy>(
    env: &Env,
    target: &Address,
    contract_error: E,
) -> (result: Result<(), E>)
    ensures
        result == if env@.whitelisted(*target) {
            Ok(())
        } else {
            Err::<(), E>(contract_error)
        },
{
    if is_whitelisted(env, target) {
        Ok(())
    } else {
        Err(contract_error)
    }
}

/// After an assignment the address holds the role, and nothing else about who
/// holds what has changed.
pub proof fn assigning_grants_exactly_the_role(env: EnvView, address: Address, role: Role)
    ensures
        env.role_assigned(address, role).holds_role(address, role),
        forall|other: Address, held: Role|
            other != address || held != role ==> #[trigger] env.role_assigned(
                address,
                role,
            ).holds_role(other, held) == env.holds_role(other, held),
{
    let before = env.role_list(address);
    let after = env.role_assigned(address, role);
    if !env.holds_role(address, role) {
        assert(before.push(role)[before.len() as int] == role);
        assert forall|other: Address, held: Role| other != address || held
            != role implies #[trigger] after.holds_role(other, held) == env.holds_role(
            other,
            held,
        ) by {
            if other == address {
                lemma_push_contains(before, role, held);
            } else {
                assert(after.role_list(other) == env.role_list(other));
            }
        }
    }
}

proof fn lemma_push_contains(list: Seq<Role>, role: Role, held: Role)
    requires
        held != role,
    ensures
        list.push(role).contains(held) == list.contains(held),
{
    if list.contains(held) {
        let i = choose|i: int| 0 <= i < list.len() && list[i] == held;
        assert(list.push(role)[i] == held);
    }
}

proof fn lemma_roles_without(list: Seq<Role>, role: Role)
    ensures
        !roles_without(list, role).contains(role),
        forall|held: Role|
            held != role ==> #[trigger] roles_without(list, role).contains(held) == list.contains(
                held,
            ),
{
    broadcast use vstd::seq_lib::group_filter_ensures;

    let kept = other_than(role);
    let rest = list.filter(kept);
    if rest.contains(role) {
        let i = choose|i: int| 0 <= i < rest.len() && rest[i] == role;
        assert(kept(rest[i]));
    }
    assert forall|held: Role| held != role implies #[trigger] roles_without(list, role).contains(
        held,
    ) == list.contains(held) by {
        if list.contains(held) {
            let i = choose|i: int| 0 <= i < list.len() && list[i] == held;
            assert(kept(list[i]));
            list.lemma_filter_contains(kept, i);
        }
        if rest.contains(held) {
            list.lemma_filter_contains_rev(kept, held);
        }
    }
}

/// After a revocation the address does not hold the role, and nothing else about
/// who holds what has changed.
pub proof fn revoking_takes_exactly_the_role(env: EnvView, address: Address, role: Role)
    ensures
        !env.role_revoked(address, role).holds_role(address, role),
        forall|other: Address, held: Role|
            other != address || held != role ==> #[trigger] env.role_revoked(
                address,
                role,
            ).holds_role(other, held) == env.holds_role(other, held),
{
    lemma_roles_without(env.role_list(address), role);
    let after = env.role_revoked(address, role);
    assert forall|other: Address, held: Role| other != address || held != role implies #[trigger] after.holds_role(
        other,
        held,
    ) == env.holds_role(other, held) by {
        if other != address {
            assert(after.role_list(other) == env.role_list(other));
        }
    }
}

/// Assigning a role twice is assigning it once, and so with revoking.
pub proof fn role_changes_are_idempotent(env: EnvView, address: Address, role: Role)
    ensures
        env.role_assigned(address, role).role_assigned(address, role) == env.role_assigned(
            address,
            role,
        ),
        env.role_revoked(address, role).role_revoked(address, role) == env.role_revoked(
            address,
            role,
        ),
{
    assigning_grants_exactly_the_role(env, address, role);
    revoking_takes_exactly_the_role(env, address, role);
}

/// No address ever holds a role twice over: neither an assignment nor a
/// revocation puts a second copy on a list.
pub proof fn role_lists_stay_free_of_duplicates(
    env: EnvView,
    address: Address,
    role: Role,
    other: Address,
)
    requires
        env.role_list(other).no_duplicates(),
    ensures
        env.role_assigned(address, role).role_list(other).no_duplicates(),
        env.role_revoked(address, role).role_list(other).no_duplicates(),
{
    if other == address {
        lemma_filter_keeps_no_duplicates(env.role_list(address), role);
    } else {
        assert(env.role_assigned(address, role).role_list(other) == env.role_list(other));
        assert(env.role_revoked(address, role).role_list(other) == env.role_list(other));
    }
}

proof fn lemma_filter_keeps_no_duplicates(list: Seq<Role>, role: Role)
    requires
        list.no_duplicates(),
    ensures
        roles_without(list, role).no_duplicates(),
    decreases list.len(),
{
    reveal(Seq::filter);
    if list.len() > 0 {
        let shorter = list.drop_last();
        lemma_filter_keeps_no_duplicates(shorter, role);
        lemma_roles_without(shorter, role);
        assert(!shorter.contains(list.last()));
        if list.last() != role {
            assert(!roles_without(shorter, role).contains(list.last()));
        }
    }
}

/// Setting the flag of one key sets it and no other, and clearing it clears it
/// and no other. So blacklisting and whitelisting do not affect each other, nor
/// any other address.
pub proof fn address_flags_are_independent(env: EnvView, key: AccessControlKey)
    ensures
        env.address_flag_set(key).address_flag(key),
        !env.address_flag_cleared(key).address_flag(key),
        forall|other: AccessControlKey|
            other != key ==> #[trigger] env.address_flag_set(key).address_flag(other)
                == env.address_flag(other),
        forall|other: AccessControlKey|
            other != key ==> #[trigger] env.address_flag_cleared(key).address_flag(other)
                == env.address_flag(other),
{
}

/// A blacklisted target is on the blacklist until it is taken off, and its
/// whitelisting is untouched; and the other way round.
pub proof fn the_two_lists_are_separate(env: EnvView, target: Address, other: Address)
    ensures
        env.address_flag_set(AccessControlKey::Blacklisted(target)).blacklisted(target),
        !env.address_flag_cleared(AccessControlKey::Blacklisted(target)).blacklisted(target),
        env.address_flag_set(AccessControlKey::Whitelisted(target)).whitelisted(target),
        !env.address_flag_cleared(AccessControlKey::Whitelisted(target)).whitelisted(target),
        env.address_flag_set(AccessControlKey::Blacklisted(target)).whitelisted(other)
            == env.whitelisted(other),
        env.address_flag_set(AccessControlKey::Whitelisted(target)).blacklisted(other)
            == env.blacklisted(other),
{
}

} // verus!
