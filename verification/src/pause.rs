//! The pause switch, and the count of operations under way.

use crate::env::{Env, EnvView, InstanceView};
use crate::table::TableKey;
use vstd::prelude::*;

verus! {

/// Ledger keys of the pause switch.
#[derive(Clone, Copy, Debug, PartialEq, Eq)]
pub enum PauseKey {
    Paused,
    /// Temporary lock set while a pause/unpause operation is in progress.
    PauseLock,
    /// Count of active operations that have entered; used to prevent pausing
    /// while operations are running.
    ActiveOps,
}

impl TableKey for PauseKey {
    fn same_key(&self, other: &Self) -> (same: bool) {
        match (self, other) {
            (PauseKey::Paused, PauseKey::Paused) => true,
            (PauseKey::PauseLock, PauseKey::PauseLock) => true,
            (PauseKey::ActiveOps, PauseKey::ActiveOps) => true,
            _ => false,
        }
    }
}

impl EnvView {
    /// The flag recorded under `key`; no entry means `false`.
    pub open spec fn pause_flag(self, key: PauseKey) -> bool {
        self.instance.pause_flags.contains_key(key) && self.instance.pause_flags[key]
    }

    /// Whether the contract is paused.
    pub open spec fn paused(self) -> bool {
        self.pause_flag(PauseKey::Paused)
    }

    /// Whether a pause or unpause is in progress.
    pub open spec fn pause_in_progress(self) -> bool {
        self.pause_flag(PauseKey::PauseLock)
    }

    /// How many operations are under way; no entry means none.
    pub open spec fn active_ops(self) -> int {
        if self.instance.operation_counts.contains_key(PauseKey::ActiveOps) {
            self.instance.operation_counts[PauseKey::ActiveOps] as int
        } else {
            0
        }
    }

    /// The environment in which the switch reads `paused` and no change of it
    /// is in progress.
    pub open spec fn pause_switched(self, paused: bool) -> EnvView {
        EnvView {
            instance: InstanceView {
                pause_flags: self.instance.pause_flags.insert(PauseKey::Paused, paused).remove(
                    PauseKey::PauseLock,
                ),
                ..self.instance
            },
            ..self
        }
    }

    /// The environment in which one operation more is under way.
    pub open spec fn operation_entered(self) -> EnvView {
        EnvView {
            instance: InstanceView {
                operation_counts: self.instance.operation_counts.insert(
                    PauseKey::ActiveOps,
                    (self.active_ops() + 1) as i128,
                ),
                ..self.instance
            },
            ..self
        }
    }

    /// The environment in which one operation less is under way. Where none is
    /// left, there is no entry.
    pub open spec fn operation_left(self) -> EnvView {
        EnvView {
            instance: InstanceView {
                operation_counts: if self.active_ops() > 1 {
                    self.instance.operation_counts.insert(
                        PauseKey::ActiveOps,
                        (self.active_ops() - 1) as i128,
                    )
                } else {
                    self.instance.operation_counts.remove(PauseKey::ActiveOps)
                },
                ..self.instance
            },
            ..self
        }
    }
}

fn read_pause_flag(env: &Env, key: &PauseKey) -> (flag: bool)
    ensures
        flag == env@.pause_flag(*key),
{
    match env.instance.pause_flags.get(key) {
        Some(flag) => *flag,
        None => false,
    }
}

fn read_active_ops(env: &Env) -> (count: i128)
    ensures
        count == env@.active_ops(),
{
    match env.instance.operation_counts.get(&PauseKey::ActiveOps) {
        Some(count) => *count,
        None => 0,
    }
}

/// Mark the contract as paused. No operation may be under way.
pub fn pause_contract(env: &mut Env)
    requires
        old(env)@.active_ops() == 0,
    ensures
        final(env)@ == old(env)@.pause_switched(true),
{
    // Keeps new operations from starting while the switch changes.
    env.instance.pause_flags.set(&PauseKey::PauseLock, true);
    env.instance.pause_flags.set(&PauseKey::Paused, true);
    env.instance.pause_flags.remove(&PauseKey::PauseLock);
    proof {
        let flags = old(env)@.instance.pause_flags;
        assert(flags.insert(PauseKey::PauseLock, true).insert(PauseKey::Paused, true).remove(
            PauseKey::PauseLock,
        ) =~= flags.insert(PauseKey::Paused, true).remove(PauseKey::PauseLock));
    }
}

/// Mark the contract as unpaused.
pub fn unpause_contract(env: &mut Env)
    ensures
        final(env)@ == old(env)@.pause_switched(false),
{
    // Keeps new operations from starting while the switch changes.
    env.instance.pause_flags.set(&PauseKey::PauseLock, true);
    env.instance.pause_flags.set(&PauseKey::Paused, false);
    env.instance.pause_flags.remove(&PauseKey::PauseLock);
    proof {
        let flags = old(env)@.instance.pause_flags;
        assert(flags.insert(PauseKey::PauseLock, true).insert(PauseKey::Paused, false).remove(
            PauseKey::PauseLock,
        ) =~= flags.insert(PauseKey::Paused, false).remove(PauseKey::PauseLock));
    }
}

/// Returns true if the contract is currently paused.
pub fn is_contract_paused(env: &Env) -> (paused: bool)
    ensures
        paused == env@.paused(),
{
    read_pause_flag(env, &PauseKey::Paused)
}

/// Fail with `error` if the contract is paused.
///
/// A pause or unpause in progress counts as paused, so that the start of an
/// operation is atomic with changes of the switch.
pub fn require_not_paused<E: Copy>(env: &Env, error: E) -> (result: Result<(), E>)
    ensures
        result == if env@.paused() || env@.pause_in_progress() {
            Err::<(), E>(error)
        } else {
            Ok(())
        },
{
    let pause_lock = read_pause_flag(env, &PauseKey::PauseLock);
    if is_contract_paused(env) || pause_lock {
        return Err(error);
    }
    Ok(())
}

/// Do nothing; the contract must be neither paused nor changing its switch.
///
/// For contracts whose error enum is full.
pub fn require_not_paused_or_panic(env: &Env)
    requires
        !env@.paused(),
        !env@.pause_in_progress(),
{
}

/// Count one more operation as under way. The contract must be neither paused
/// nor changing its switch, and the count must have room for one more.
pub fn operation_enter_or_panic(env: &mut Env)
    requires
        !old(env)@.pause_in_progress(),
        !old(env)@.paused(),
        old(env)@.active_ops() < i128::MAX,
    ensures
        final(env)@ == old(env)@.operation_entered(),
{
    let count: i128 = read_active_ops(env);
    env.instance.operation_counts.set(&PauseKey::ActiveOps, count + 1);
}

/// Count one operation less as under way. Safe to call even if the count is
/// missing.
pub fn operation_exit(env: &mut Env)
    ensures
        final(env)@ == old(env)@.operation_left(),
{
    let count: i128 = read_active_ops(env);
    if count <= 1 {
        env.instance.operation_counts.remove(&PauseKey::ActiveOps);
    } else {
        env.instance.operation_counts.set(&PauseKey::ActiveOps, count - 1);
    }
}

/// Pausing pauses and unpausing unpauses; either way no change of the switch is
/// left in progress, and the operations under way are not affected.
pub proof fn switching_sets_the_switch(env: EnvView, paused: bool)
    ensures
        env.pause_switched(paused).paused() == paused,
        !env.pause_switched(paused).pause_in_progress(),
        env.pause_switched(paused).active_ops() == env.active_ops(),
{
}

/// Leaving an operation undoes entering it, and in between there is one
/// operation more under way, so that the contract cannot be paused.
pub proof fn leaving_undoes_entering(env: EnvView)
    requires
        0 <= env.active_ops() < i128::MAX,
    ensures
        env.operation_entered().active_ops() == env.active_ops() + 1,
        env.operation_entered().active_ops() != 0,
        env.operation_entered().operation_left().active_ops() == env.active_ops(),
        env.operation_entered().paused() == env.paused(),
{
}

/// However often operations are left, the count of operations under way does not
/// fall below zero.
pub proof fn leaving_floors_at_zero(env: EnvView)
    ensures
        env.operation_left().active_ops() >= 0,
{
}

} // verus!
