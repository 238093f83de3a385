//! What a contract call reads and writes, as plain values.
//!
//! An [`Env`] holds the ledger entries that one call works on, the addresses
//! that have authorized the call, the ledger time, and, in order, the events
//! and token transfers that the call gives rise to. The caller reads those
//! entries from the ledger before the call and writes them back after it; when
//! a call returns an error, nothing is written.

use crate::access::{AccessControlKey, Role};
use crate::address::{is_on, Address};
use crate::governance::VotingKey;
use crate::pause::PauseKey;
use crate::plan::{DataKey, Event, PlanLimits, Records, RecordsView, Transfer, VaultKey};
use crate::reentrancy::SecurityKey;
use crate::table::Table;
use crate::version::VersionKey;
use vstd::prelude::*;

verus! {

/// Entries that outlive the contract instance.
#[derive(Debug)]
pub struct Persistent {
    pub role_lists: Table<AccessControlKey, Vec<Role>>,
    pub address_flags: Table<AccessControlKey, bool>,
    pub voting_amounts: Table<VotingKey, u128>,
    pub delegations: Table<VotingKey, Address>,
    pub records: Records,
    pub plan_vaults: Table<VaultKey, Address>,
}

/// Entries that live and die with the contract instance.
#[derive(Debug)]
pub struct Instance {
    pub pause_flags: Table<PauseKey, bool>,
    pub operation_counts: Table<PauseKey, i128>,
    pub versions: Table<VersionKey, u32>,
    pub verifiers: Table<DataKey, Address>,
    pub admin: Option<Address>,
}

/// Entries that the ledger keeps only for a while.
#[derive(Debug)]
pub struct Temporary {
    pub locks: Table<SecurityKey, bool>,
}

/// The surroundings of one contract call.
#[derive(Debug)]
pub struct Env {
    pub persistent: Persistent,
    pub instance: Instance,
    pub temporary: Temporary,
    pub authorized: Vec<Address>,
    pub timestamp: u64,
    pub limits: PlanLimits,
    pub events: Vec<Event>,
    pub transfers: Vec<Transfer>,
}

#[verifier::ext_equal]
pub struct PersistentView {
    pub role_lists: Map<AccessControlKey, Seq<Role>>,
    pub address_flags: Map<AccessControlKey, bool>,
    pub voting_amounts: Map<VotingKey, u128>,
    pub delegations: Map<VotingKey, Address>,
    pub records: RecordsView,
    pub plan_vaults: Map<VaultKey, Address>,
}

#[verifier::ext_equal]
pub struct InstanceView {
    pub pause_flags: Map<PauseKey, bool>,
    pub operation_counts: Map<PauseKey, i128>,
    pub versions: Map<VersionKey, u32>,
    pub verifiers: Map<DataKey, Address>,
    pub admin: Option<Address>,
}

#[verifier::ext_equal]
pub struct TemporaryView {
    pub locks: Map<SecurityKey, bool>,
}

#[verifier::ext_equal]
pub struct EnvView {
    pub persistent: PersistentView,
    pub instance: InstanceView,
    pub temporary: TemporaryView,
    pub authorized: Seq<Address>,
    pub timestamp: u64,
    pub limits: PlanLimits,
    pub events: Seq<Event>,
    pub transfers: Seq<Transfer>,
}

impl View for Persistent {
    type V = PersistentView;

    open spec fn view(&self) -> PersistentView {
        PersistentView {
            role_lists: self.role_lists@,
            address_flags: self.address_flags@,
            voting_amounts: self.voting_amounts@,
            delegations: self.delegations@,
            records: self.records@,
            plan_vaults: self.plan_vaults@,
        }
    }
}

impl View for Instance {
    type V = InstanceView;

    open spec fn view(&self) -> InstanceView {
        InstanceView {
            pause_flags: self.pause_flags@,
            operation_counts: self.operation_counts@,
            versions: self.versions@,
            verifiers: self.verifiers@,
            admin: self.admin,
        }
    }
}

impl View for Temporary {
    type V = TemporaryView;

    open spec fn view(&self) -> TemporaryView {
        TemporaryView { locks: self.locks@ }
    }
}

impl View for Env {
    type V = EnvView;

    open spec fn view(&self) -> EnvView {
        EnvView {
            persistent: self.persistent@,
            instance: self.instance@,
            temporary: self.temporary@,
            authorized: self.authorized@,
            timestamp: self.timestamp,
            limits: self.limits,
            events: self.events@,
            transfers: self.transfers@,
        }
    }
}

/// An environment at time `timestamp` without entries, authorizations, events
/// or transfers.
pub open spec fn empty_env(timestamp: u64, limits: PlanLimits) -> EnvView {
    EnvView {
        persistent: PersistentView {
            role_lists: Map::empty(),
            address_flags: Map::empty(),
            voting_amounts: Map::empty(),
            delegations: Map::empty(),
            records: RecordsView::empty(),
            plan_vaults: Map::empty(),
        },
        instance: InstanceView {
            pause_flags: Map::empty(),
            operation_counts: Map::empty(),
            versions: Map::empty(),
            verifiers: Map::empty(),
            admin: None,
        },
        temporary: TemporaryView { locks: Map::empty() },
        authorized: Seq::empty(),
        timestamp,
        limits,
        events: Seq::empty(),
        transfers: Seq::empty(),
    }
}

impl Env {
    /// The environment of a call at time `timestamp`, before any entry is
    /// loaded.
    pub fn new(timestamp: u64, limits: PlanLimits) -> (env: Env)
        ensures
            env@ == empty_env(timestamp, limits),
    {
        Env {
            persistent: Persistent {
                role_lists: Table::new(),
                address_flags: Table::new(),
                voting_amounts: Table::new(),
                delegations: Table::new(),
                records: Records::new(),
                plan_vaults: Table::new(),
            },
            instance: Instance {
                pause_flags: Table::new(),
                operation_counts: Table::new(),
                versions: Table::new(),
                verifiers: Table::new(),
                admin: None,
            },
            temporary: Temporary { locks: Table::new() },
            authorized: Vec::new(),
            timestamp,
            limits,
            events: Vec::new(),
            transfers: Vec::new(),
        }
    }

    /// Notes that `address` has authorized the call.
    pub fn authorize(&mut self, address: &Address)
        ensures
            final(self)@ == (EnvView { authorized: old(self)@.authorized.push(*address), ..old(self)@ }),
    {
        self.authorized.push(*address);
    }

    /// Whether `address` has authorized the call.
    pub fn is_authorized(&self, address: &Address) -> (authorized: bool)
        ensures
            authorized == self@.authorized.contains(*address),
    {
        is_on(&self.authorized, address)
    }
}

} // verus!
