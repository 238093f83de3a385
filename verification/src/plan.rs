//! Inheritance plans and the ledger entries that belong to them.

use crate::address::{is_on, same_address, same_bytes32, Address};
use crate::table::{Table, TableKey};
use vstd::prelude::*;

verus! {

/// Why a plan operation was refused.
#[derive(Clone, Copy, Debug, PartialEq, Eq, Structural)]
pub enum InheritanceError {
    PlanNotFound,
    PlanNotClaimed,
    PlanNotActive,
    Unauthorized,
    InvalidBeneficiaryIndex,
    ZkProofRequired,
}

/// Ledger keys of plan state. The name of a key says which record it holds.
#[derive(Clone, Copy, Debug, PartialEq, Eq)]
pub enum DataKey {
    /// The plan itself.
    P(u64),
    /// Records of one beneficiary of a plan.
    Cs(u64, u32),
    Fb(u64, u32),
    Bn(u64, u32),
    Ba(u64, u32),
    Ves(u64, u32),
    /// A record found by hash; see [`crate::zk`].
    Zk([u8; 32]),
    /// Records that a plan has one of.
    It(u64),
    Eac(u64),
    Gd(u64),
    Ec(u64),
    Wh(u64),
    Vw(u64),
    Bv(u64),
    Fz(u64),
    Lh(u64),
    Tc(u64),
    Ys(u64),
    Awv(u64),
    Ww(u64),
    Ws(u64),
    /// How many will versions a plan has, and the records of one version.
    Wvc(u64),
    Wv(u64, u32),
    Wf(u64, u32),
    Wfa(u64, u32),
    /// Lists of plans: deactivated, of an owner, deactivated of an owner, and
    /// claimed.
    Dp,
    Up(Address),
    Uc(Address),
    Ac,
}

impl TableKey for DataKey {
    fn same_key(&self, other: &Self) -> (same: bool) {
        match (self, other) {
            (DataKey::P(a), DataKey::P(b)) => *a == *b,
            (DataKey::Cs(a, i), DataKey::Cs(b, j)) => *a == *b && *i == *j,
            (DataKey::Fb(a, i), DataKey::Fb(b, j)) => *a == *b && *i == *j,
            (DataKey::Bn(a, i), DataKey::Bn(b, j)) => *a == *b && *i == *j,
            (DataKey::Ba(a, i), DataKey::Ba(b, j)) => *a == *b && *i == *j,
            (DataKey::Ves(a, i), DataKey::Ves(b, j)) => *a == *b && *i == *j,
            (DataKey::Zk(a), DataKey::Zk(b)) => same_bytes32(a, b),
            (DataKey::It(a), DataKey::It(b)) => *a == *b,
            (DataKey::Eac(a), DataKey::Eac(b)) => *a == *b,
            (DataKey::Gd(a), DataKey::Gd(b)) => *a == *b,
            (DataKey::Ec(a), DataKey::Ec(b)) => *a == *b,
            (DataKey::Wh(a), DataKey::Wh(b)) => *a == *b,
            (DataKey::Vw(a), DataKey::Vw(b)) => *a == *b,
            (DataKey::Bv(a), DataKey::Bv(b)) => *a == *b,
            (DataKey::Fz(a), DataKey::Fz(b)) => *a == *b,
            (DataKey::Lh(a), DataKey::Lh(b)) => *a == *b,
            (DataKey::Tc(a), DataKey::Tc(b)) => *a == *b,
            (DataKey::Ys(a), DataKey::Ys(b)) => *a == *b,
            (DataKey::Awv(a), DataKey::Awv(b)) => *a == *b,
            (DataKey::Ww(a), DataKey::Ww(b)) => *a == *b,
            (DataKey::Ws(a), DataKey::Ws(b)) => *a == *b,
            (DataKey::Wvc(a), DataKey::Wvc(b)) => *a == *b,
            (DataKey::Wv(a, i), DataKey::Wv(b, j)) => *a == *b && *i == *j,
            (DataKey::Wf(a, i), DataKey::Wf(b, j)) => *a == *b && *i == *j,
            (DataKey::Wfa(a, i), DataKey::Wfa(b, j)) => *a == *b && *i == *j,
            (DataKey::Dp, DataKey::Dp) => true,
            (DataKey::Up(a), DataKey::Up(b)) => same_address(a, b),
            (DataKey::Uc(a), DataKey::Uc(b)) => same_address(a, b),
            (DataKey::Ac, DataKey::Ac) => true,
            _ => false,
        }
    }
}

/// Ledger key of a plan's vault address: the symbol `pvault` and the plan.
#[derive(Clone, Copy, Debug, PartialEq, Eq, Structural)]
pub struct VaultKey {
    pub plan_id: u64,
}

impl TableKey for VaultKey {
    fn same_key(&self, other: &Self) -> (same: bool) {
        *self == *other
    }
}

/// What plan upkeep reads of a beneficiary.
#[derive(Clone, Copy, Debug, PartialEq, Eq, Structural)]
pub struct Beneficiary {
    pub is_claimed: bool,
}

/// What plan upkeep reads of a plan.
#[derive(Clone, Debug, PartialEq, Eq)]
pub struct InheritancePlan {
    pub owner: Address,
    pub token: Address,
    pub beneficiaries: Vec<Beneficiary>,
    pub total_amount: u64,
    pub total_loaned: u64,
    pub is_active: bool,
}

#[verifier::ext_equal]
pub struct PlanView {
    pub owner: Address,
    pub token: Address,
    pub beneficiaries: Seq<Beneficiary>,
    pub total_amount: u64,
    pub total_loaned: u64,
    pub is_active: bool,
}

impl View for InheritancePlan {
    type V = PlanView;

    open spec fn view(&self) -> PlanView {
        PlanView {
            owner: self.owner,
            token: self.token,
            beneficiaries: self.beneficiaries@,
            total_amount: self.total_amount,
            total_loaned: self.total_loaned,
            is_active: self.is_active,
        }
    }
}

/// How many beneficiaries and will versions a plan can have.
#[derive(Clone, Copy, Debug, PartialEq, Eq, Structural)]
pub struct PlanLimits {
    pub max_beneficiaries: u32,
    pub max_will_versions: u32,
}

impl PlanLimits {
    /// Whether the number of entries that a plan with so many listed claimants can
    /// have fits a `u32`.
    pub open spec fn fit(self, claimants: nat) -> bool {
        18 + 6 * self.max_beneficiaries + 3 * self.max_will_versions + claimants <= u32::MAX
    }
}

/// Told to observers when a closed plan's storage has been released.
#[derive(Clone, Copy, Debug, PartialEq, Eq)]
pub struct PlanStorageCleanedEvent {
    pub plan_id: u64,
    pub owner: Address,
    /// What was sent back to the owner. More than a `u64` holds is sent in full and
    /// announced as the largest `u64`.
    pub rent_refunded: u64,
    pub entries_released: u32,
    pub cleaned_at: u64,
}

/// Told to observers when a genetic proof has been verified.
#[derive(Clone, Copy, Debug, PartialEq, Eq)]
pub struct ZkGeneticProofVerifiedEvent {
    pub plan_id: u64,
    pub claimant: Address,
    pub plan_commitment: [u8; 32],
    pub verified_at: u64,
}

#[derive(Clone, Copy, Debug, PartialEq, Eq)]
pub enum Event {
    PlanStorageCleaned(PlanStorageCleanedEvent),
    ZkGeneticProofVerified(ZkGeneticProofVerifiedEvent),
}

/// The two topics that an event is published under.
pub fn event_topics(event: &Event) -> (topics: (&'static str, &'static str))
    ensures
        match event {
            Event::PlanStorageCleaned(_) => topics.0@ == "PLAN"@ && topics.1@ == "CLEAN"@,
            Event::ZkGeneticProofVerified(_) => topics.0@ == "ZK"@ && topics.1@ == "VERIFY"@,
        },
{
    match event {
        Event::PlanStorageCleaned(_) => ("PLAN", "CLEAN"),
        Event::ZkGeneticProofVerified(_) => ("ZK", "VERIFY"),
    }
}

/// A token payment that a call gives rise to.
#[derive(Clone, Copy, Debug, PartialEq, Eq)]
pub struct Transfer {
    pub token: Address,
    pub from: Address,
    pub to: Address,
    pub amount: i128,
}

/// The persistent plan entries that a call works on, by what they hold. What
/// upkeep never looks into is kept only as present.
#[derive(Debug)]
pub struct Records {
    pub plans: Table<DataKey, InheritancePlan>,
    pub counts: Table<DataKey, u32>,
    pub lists: Table<DataKey, Vec<u64>>,
    pub flags: Table<DataKey, bool>,
    pub claimants: Table<DataKey, Vec<Address>>,
    pub others: Table<DataKey, ()>,
}

#[verifier::ext_equal]
pub struct RecordsView {
    pub plans: Map<DataKey, PlanView>,
    pub counts: Map<DataKey, u32>,
    pub lists: Map<DataKey, Seq<u64>>,
    pub flags: Map<DataKey, bool>,
    pub claimants: Map<DataKey, Seq<Address>>,
    pub others: Map<DataKey, ()>,
}

impl View for Records {
    type V = RecordsView;

    open spec fn view(&self) -> RecordsView {
        RecordsView {
            plans: self.plans@,
            counts: self.counts@,
            lists: self.lists@,
            flags: self.flags@,
            claimants: self.claimants@,
            others: self.others@,
        }
    }
}

impl RecordsView {
    /// No entries.
    pub open spec fn empty() -> RecordsView {
        RecordsView {
            plans: Map::empty(),
            counts: Map::empty(),
            lists: Map::empty(),
            flags: Map::empty(),
            claimants: Map::empty(),
            others: Map::empty(),
        }
    }

    /// Whether there is an entry under `key`.
    pub open spec fn has(self, key: DataKey) -> bool {
        ||| self.plans.contains_key(key)
        ||| self.counts.contains_key(key)
        ||| self.lists.contains_key(key)
        ||| self.flags.contains_key(key)
        ||| self.claimants.contains_key(key)
        ||| self.others.contains_key(key)
    }

    /// The entries without the one under `key`.
    pub open spec fn without(self, key: DataKey) -> RecordsView {
        RecordsView {
            plans: self.plans.remove(key),
            counts: self.counts.remove(key),
            lists: self.lists.remove(key),
            flags: self.flags.remove(key),
            claimants: self.claimants.remove(key),
            others: self.others.remove(key),
        }
    }

    /// The entries without those under `keys`.
    pub open spec fn without_all(self, keys: Set<DataKey>) -> RecordsView {
        RecordsView {
            plans: self.plans.remove_keys(keys),
            counts: self.counts.remove_keys(keys),
            lists: self.lists.remove_keys(keys),
            flags: self.flags.remove_keys(keys),
            claimants: self.claimants.remove_keys(keys),
            others: self.others.remove_keys(keys),
        }
    }

    /// The entries with `true` as the one under `key`.
    pub open spec fn with_flag(self, key: DataKey) -> RecordsView {
        let rest = self.without(key);
        RecordsView { flags: rest.flags.insert(key, true), ..rest }
    }

    /// The flag under `key`; no entry means `false`.
    pub open spec fn flag(self, key: DataKey) -> bool {
        self.flags.contains_key(key) && self.flags[key]
    }

    /// The list of claimants under `key`; no entry means that it is empty.
    pub open spec fn claimant_list(self, key: DataKey) -> Seq<Address> {
        if self.claimants.contains_key(key) {
            self.claimants[key]
        } else {
            Seq::empty()
        }
    }

    /// The entries with `claimant` on the list of claimants under `key`, once.
    pub open spec fn with_claimant(self, key: DataKey, claimant: Address) -> RecordsView {
        if self.claimant_list(key).contains(claimant) {
            self
        } else {
            let rest = self.without(key);
            RecordsView {
                claimants: rest.claimants.insert(key, self.claimant_list(key).push(claimant)),
                ..rest
            }
        }
    }

    /// Whether the two hold the same entry, or both none, under `key`.
    pub open spec fn agrees_on(self, other: RecordsView, key: DataKey) -> bool {
        &&& self.plans.contains_key(key) == other.plans.contains_key(key)
        &&& self.plans.contains_key(key) ==> self.plans[key] == other.plans[key]
        &&& self.counts.contains_key(key) == other.counts.contains_key(key)
        &&& self.counts.contains_key(key) ==> self.counts[key] == other.counts[key]
        &&& self.lists.contains_key(key) == other.lists.contains_key(key)
        &&& self.lists.contains_key(key) ==> self.lists[key] == other.lists[key]
        &&& self.flags.contains_key(key) == other.flags.contains_key(key)
        &&& self.flags.contains_key(key) ==> self.flags[key] == other.flags[key]
        &&& self.claimants.contains_key(key) == other.claimants.contains_key(key)
        &&& self.claimants.contains_key(key) ==> self.claimants[key] == other.claimants[key]
        &&& self.others.contains_key(key) == other.others.contains_key(key)
    }
}

impl Records {
    /// No entries.
    pub fn new() -> (records: Records)
        ensures
            records@ == RecordsView::empty(),
    {
        Records {
            plans: Table::new(),
            counts: Table::new(),
            lists: Table::new(),
            flags: Table::new(),
            claimants: Table::new(),
            others: Table::new(),
        }
    }

    /// Whether there is an entry under `key`.
    pub fn has(&self, key: &DataKey) -> (present: bool)
        ensures
            present == self@.has(*key),
    {
        self.plans.has(key) || self.counts.has(key) || self.lists.has(key) || self.flags.has(key)
            || self.claimants.has(key) || self.others.has(key)
    }

    /// Deletes the entry under `key`, if there is one.
    pub fn remove(&mut self, key: &DataKey)
        ensures
            final(self)@ == old(self)@.without(*key),
    {
        self.plans.remove(key);
        self.counts.remove(key);
        self.lists.remove(key);
        self.flags.remove(key);
        self.claimants.remove(key);
        self.others.remove(key);
    }

    /// Makes `true` the entry under `key`.
    pub fn set_flag(&mut self, key: &DataKey)
        ensures
            final(self)@ == old(self)@.with_flag(*key),
    {
        self.remove(key);
        self.flags.set(key, true);
    }

    /// The list of claimants under `key`; no entry means that it is empty.
    pub fn read_claimants(&self, key: &DataKey) -> (list: Vec<Address>)
        ensures
            list@ == self@.claimant_list(*key),
    {
        let mut list: Vec<Address> = Vec::new();
        if let Some(claimants) = self.claimants.get(key) {
            let mut i: usize = 0;
            while i < claimants.len()
                invariant
                    0 <= i <= claimants@.len(),
                    list@ == claimants@.take(i as int),
                decreases claimants@.len() - i,
            {
                list.push(claimants[i]);
                i += 1;
                assert(claimants@.take(i as int).drop_last() =~= claimants@.take(i - 1));
            }
            assert(claimants@.take(i as int) =~= claimants@);
        }
        list
    }

    /// Puts `claimant` on the list of claimants under `key`, once.
    pub fn add_claimant(&mut self, key: &DataKey, claimant: &Address)
        ensures
            final(self)@ == old(self)@.with_claimant(*key, *claimant),
    {
        let mut list: Vec<Address> = self.read_claimants(key);
        if is_on(&list, claimant) {
            return;
        }
        list.push(*claimant);
        self.remove(key);
        self.claimants.set(key, list);
    }

    /// The flag under `key`; no entry means `false`.
    pub fn read_flag(&self, key: &DataKey) -> (flag: bool)
        ensures
            flag == self@.flag(*key),
    {
        match self.flags.get(key) {
            Some(flag) => *flag,
            None => false,
        }
    }
}

} // verus!
