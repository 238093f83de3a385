//! Contract versions, and the check of a peer's version before calling it.

use crate::address::Address;
use crate::env::{Env, EnvView, InstanceView};
use crate::invocation::{Arg, Invocation, InvocationView};
use crate::table::TableKey;
use vstd::prelude::*;

verus! {

/// Ledger key of the version.
#[derive(Clone, Copy, Debug, PartialEq, Eq)]
pub enum VersionKey {
    ContractVersion,
}

impl TableKey for VersionKey {
    fn same_key(&self, other: &Self) -> (same: bool) {
        match (self, other) {
            (VersionKey::ContractVersion, VersionKey::ContractVersion) => true,
        }
    }
}

/// Version of the contract suite that this library speaks. Bump it whenever the
/// cross-contract call surface changes, so that peers built against an older
/// surface are rejected instead of silently misread.
pub const CONTRACT_VERSION: u32 = 1;

/// Name of the entry point that every contract of the suite exposes so that
/// peers can query its version.
pub const VERSION_FN: &'static str = "get_version";

impl EnvView {
    /// The version recorded for this contract; no entry means version 1.
    pub open spec fn contract_version(self) -> u32 {
        if self.instance.versions.contains_key(VersionKey::ContractVersion) {
            self.instance.versions[VersionKey::ContractVersion]
        } else {
            1
        }
    }

    /// The environment in which `version` is recorded for this contract.
    pub open spec fn with_contract_version(self, version: u32) -> EnvView {
        EnvView {
            instance: InstanceView {
                versions: self.instance.versions.insert(VersionKey::ContractVersion, version),
                ..self.instance
            },
            ..self
        }
    }
}

/// Store the contract version. Call this during contract initialization.
pub fn set_contract_version(env: &mut Env, version: u32)
    ensures
        final(env)@ == old(env)@.with_contract_version(version),
{
    env.instance.versions.set(&VersionKey::ContractVersion, version);
}

/// Retrieve the contract version.
pub fn get_contract_version(env: &Env) -> (version: u32)
    ensures
        version == env@.contract_version(),
{
    match env.instance.versions.get(&VersionKey::ContractVersion) {
        Some(version) => *version,
        None => 1,
    }
}

/// The call that asks `target_contract` for its version: [`VERSION_FN`],
/// without arguments.
pub fn version_invocation(target_contract: &Address) -> (call: Invocation)
    ensures
        call@ == (InvocationView {
            contract: *target_contract,
            function: VERSION_FN@,
            args: Seq::empty(),
        }),
{
    let args: Vec<Arg> = Vec::new();
    let call = Invocation { contract: *target_contract, function: VERSION_FN, args };
    assert(call@.args =~= Seq::empty());
    call
}

/// The version that a peer reports, out of its reply to
/// [`version_invocation`].
///
/// Returns `None` when the peer did not answer at all (it is not a contract,
/// does not expose [`VERSION_FN`], or traps), or when it answered with
/// something other than a `u32`. Callers treat that as incompatible rather than
/// trusting an unknown peer.
pub fn query_contract_version<C, F>(reply: Result<Result<u32, C>, F>) -> (version: Option<u32>)
    ensures
        version == match reply {
            Ok(Ok(reported)) => Some(reported),
            _ => None::<u32>,
        },
{
    match reply {
        Ok(Ok(version)) => Some(version),
        _ => None,
    }
}

/// Verify that a peer's reported version is compatible. Returns `error` if the
/// version lies outside the acceptable range, or if the peer cannot report one.
pub fn check_contract_version<C, F, E: Copy>(
    reply: Result<Result<u32, C>, F>,
    min_version: u32,
    max_version: u32,
    error: E,
) -> (result: Result<(), E>)
    ensures
        result == match reply {
            Ok(Ok(version)) => if min_version <= version <= max_version {
                Ok(())
            } else {
                Err::<(), E>(error)
            },
            _ => Err::<(), E>(error),
        },
{
    match query_contract_version(reply) {
        Some(version) => {
            if version >= min_version && version <= max_version {
                Ok(())
            } else {
                Err(error)
            }
        },
        None => Err(error),
    }
}

/// Require that a peer reports exactly `expected_version`.
///
/// Call this before an administrative or vault state call that crosses a
/// contract boundary, so that a version mismatch reverts with the caller's own
/// error rather than executing against a surface that has changed shape.
pub fn assert_compatible_version<C, F, E: Copy>(
    reply: Result<Result<u32, C>, F>,
    expected_version: u32,
    error: E,
) -> (result: Result<(), E>)
    ensures
        result == match reply {
            Ok(Ok(version)) => if version == expected_version {
                Ok(())
            } else {
                Err::<(), E>(error)
            },
            _ => Err::<(), E>(error),
        },
{
    check_contract_version(reply, expected_version, expected_version, error)
}

/// Do nothing; the peer must have reported exactly `expected_version`.
///
/// For contracts whose error enum has no room for a version mismatch.
pub fn assert_compatible_version_or_panic<C, F>(
    reply: Result<Result<u32, C>, F>,
    expected_version: u32,
)
    requires
        reply matches Ok(Ok(version)) && version == expected_version,
{
}

/// The version that is stored is the version that is read.
pub proof fn the_stored_version_is_read(env: EnvView, version: u32)
    ensures
        env.with_contract_version(version).contract_version() == version,
{
}

} // verus!
