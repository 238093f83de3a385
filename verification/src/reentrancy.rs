//! The reentrancy guard.

use crate::env::{Env, EnvView, TemporaryView};
use crate::table::TableKey;
use vstd::prelude::*;

verus! {

/// Ledger key of the reentrancy lock.
#[derive(Clone, Copy, Debug, PartialEq, Eq)]
pub enum SecurityKey {
    ReentrancyLock,
}

impl TableKey for SecurityKey {
    fn same_key(&self, other: &Self) -> (same: bool) {
        match (self, other) {
            (SecurityKey::ReentrancyLock, SecurityKey::ReentrancyLock) => true,
        }
    }
}

/// Whether the reentrancy lock is held.
pub open spec fn lock_held(env: EnvView) -> bool {
    env.temporary.locks.contains_key(SecurityKey::ReentrancyLock)
}

impl EnvView {
    /// The environment in which the reentrancy lock is taken.
    pub open spec fn locked(self) -> EnvView {
        EnvView {
            temporary: TemporaryView {
                locks: self.temporary.locks.insert(SecurityKey::ReentrancyLock, true),
            },
            ..self
        }
    }

    /// The environment in which the reentrancy lock is free.
    pub open spec fn unlocked(self) -> EnvView {
        EnvView {
            temporary: TemporaryView {
                locks: self.temporary.locks.remove(SecurityKey::ReentrancyLock),
            },
            ..self
        }
    }
}

/// Evidence that its holder has taken the reentrancy lock. Only
/// [`ReentrancyGuard::lock`] and [`ReentrancyGuard::lock_or_panic`] make one,
/// and giving it up with [`ReentrancyGuard::release`] clears the lock.
#[derive(Debug)]
pub struct ReentrancyGuard {
    key: SecurityKey,
}

impl ReentrancyGuard {
    /// Takes the lock. Returns `error` if it is already held.
    pub fn lock<E: Copy>(env: &mut Env, error: E) -> (result: Result<ReentrancyGuard, E>)
        ensures
            match result {
                Ok(guard) => !lock_held(old(env)@) && final(env)@ == old(env)@.locked(),
                Err(reported) => lock_held(old(env)@) && reported == error && final(env)@ == old(
                    env,
                )@,
            },
    {
        match reentrancy_enter(env, error) {
            Ok(()) => Ok(ReentrancyGuard { key: SecurityKey::ReentrancyLock }),
            Err(reported) => Err(reported),
        }
    }

    /// Takes the lock, which must be free.
    pub fn lock_or_panic(env: &mut Env) -> (guard: ReentrancyGuard)
        requires
            !lock_held(old(env)@),
        ensures
            final(env)@ == old(env)@.locked(),
    {
        reentrancy_enter_or_panic(env);
        ReentrancyGuard { key: SecurityKey::ReentrancyLock }
    }

    /// Gives the guard up and clears the lock.
    pub fn release(self, env: &mut Env)
        ensures
            final(env)@ == old(env)@.unlocked(),
    {
        env.temporary.locks.remove(&self.key);
    }
}

/// Take the reentrancy lock; returns `error` if it is already held.
pub fn reentrancy_enter<E: Copy>(env: &mut Env, error: E) -> (result: Result<(), E>)
    ensures
        match result {
            Ok(()) => !lock_held(old(env)@) && final(env)@ == old(env)@.locked(),
            Err(reported) => lock_held(old(env)@) && reported == error && final(env)@ == old(env)@,
        },
{
    if env.temporary.locks.has(&SecurityKey::ReentrancyLock) {
        return Err(error);
    }
    env.temporary.locks.set(&SecurityKey::ReentrancyLock, true);
    Ok(())
}

/// Take the reentrancy lock, which must be free.
pub fn reentrancy_enter_or_panic(env: &mut Env)
    requires
        !lock_held(old(env)@),
    ensures
        final(env)@ == old(env)@.locked(),
{
    env.temporary.locks.set(&SecurityKey::ReentrancyLock, true);
}

/// Clear the reentrancy lock, whether or not it is held.
pub fn reentrancy_exit(env: &mut Env)
    ensures
        final(env)@ == old(env)@.unlocked(),
{
    env.temporary.locks.remove(&SecurityKey::ReentrancyLock);
}

/// While the lock is held it cannot be taken again, and giving it back restores
/// what was there before it was taken.
pub proof fn the_lock_excludes_and_restores(env: EnvView)
    ensures
        lock_held(env.locked()),
        !lock_held(env.unlocked()),
        !lock_held(env) ==> env.locked().unlocked() == env,
{
    if !lock_held(env) {
        assert(env.locked().unlocked() =~= env);
    }
}

} // verus!
