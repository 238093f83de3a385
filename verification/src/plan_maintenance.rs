//! Release of a closed plan's storage.
//!
//! A plan's footprint is spread over more than the plan body: every record
//! scoped to it lives under a key of its own. [`plan_storage_footprint`] counts
//! those records and [`cleanup_closed_plan`] deletes them.
//!
//! Cleaning up takes two steps, because the vault balance is read from the
//! token contract: [`cleanup_balance_query`] takes the reentrancy lock and says
//! which balance to read, and [`cleanup_closed_plan`] takes that balance and
//! does the rest. The lock is held in between.

use crate::address::{same_address, Address};
use crate::cleanup_laws::sweeping_empties_the_footprint;
use crate::env::{Env, EnvView, PersistentView};
use crate::plan::{
    DataKey, Event, InheritanceError, InheritancePlan, PlanLimits, PlanStorageCleanedEvent,
    PlanView, RecordsView, Transfer, VaultKey,
};
use crate::reentrancy::{lock_held, reentrancy_enter_or_panic, reentrancy_exit};
use crate::table::TableKey;
use crate::zk::{
    claimants_key, claimants_record_key, genetic_kin_key, proof_record_key, requirement_record_key,
    verified_proof_key,
};
use vstd::prelude::*;

verus! {

/// The lesser of a length and a limit.
pub open spec fn at_most(length: nat, limit: u32) -> nat {
    if length < limit {
        length
    } else {
        limit as nat
    }
}

/// The keys of the records of one beneficiary.
pub open spec fn one_beneficiary_keys(plan_id: u64, index: u32) -> Seq<DataKey> {
    seq![
        DataKey::Cs(plan_id, index),
        DataKey::Fb(plan_id, index),
        DataKey::Bn(plan_id, index),
        DataKey::Ba(plan_id, index),
        DataKey::Ves(plan_id, index),
        requirement_record_key(plan_id, index),
    ]
}

/// The keys of the records of the first `count` beneficiaries.
pub open spec fn beneficiary_keys(plan_id: u64, count: nat) -> Seq<DataKey>
    decreases count,
{
    if count == 0 {
        Seq::empty()
    } else {
        beneficiary_keys(plan_id, (count - 1) as nat) + one_beneficiary_keys(
            plan_id,
            (count - 1) as u32,
        )
    }
}

/// The keys of the records that a plan has one of, other than its body and the
/// number of its will versions.
pub open spec fn single_keys(plan_id: u64) -> Seq<DataKey> {
    seq![
        DataKey::It(plan_id),
        DataKey::Eac(plan_id),
        DataKey::Gd(plan_id),
        DataKey::Ec(plan_id),
        DataKey::Wh(plan_id),
        DataKey::Vw(plan_id),
        DataKey::Bv(plan_id),
        DataKey::Fz(plan_id),
        DataKey::Lh(plan_id),
        DataKey::Tc(plan_id),
        DataKey::Ys(plan_id),
        DataKey::Awv(plan_id),
        DataKey::Ww(plan_id),
        DataKey::Ws(plan_id),
    ]
}

/// The keys of the records of one will version.
pub open spec fn one_version_keys(plan_id: u64, version: u32) -> Seq<DataKey> {
    seq![
        DataKey::Wv(plan_id, version),
        DataKey::Wf(plan_id, version),
        DataKey::Wfa(plan_id, version),
    ]
}

/// The keys of the records of the first `count` will versions.
pub open spec fn version_keys(plan_id: u64, count: nat) -> Seq<DataKey>
    decreases count,
{
    if count == 0 {
        Seq::empty()
    } else {
        version_keys(plan_id, (count - 1) as nat) + one_version_keys(plan_id, (count - 1) as u32)
    }
}

/// The keys of the verified-proof records of `claimants`.
pub open spec fn proof_keys(plan_id: u64, claimants: Seq<Address>) -> Seq<DataKey> {
    claimants.map_values(|claimant: Address| proof_record_key(plan_id, claimant))
}

/// The keys of all records of a plan with so many beneficiaries and will
/// versions, and with `claimants` on its list.
pub open spec fn record_keys(
    plan_id: u64,
    beneficiaries: nat,
    versions: nat,
    claimants: Seq<Address>,
) -> Seq<DataKey> {
    seq![DataKey::P(plan_id)] + beneficiary_keys(plan_id, beneficiaries) + single_keys(plan_id)
        + version_keys(plan_id, versions) + seq![DataKey::Wvc(plan_id)] + proof_keys(
        plan_id,
        claimants,
    ) + seq![claimants_record_key(plan_id)]
}

/// The keys among `keys` that have an entry.
pub open spec fn occupied_set(records: RecordsView, keys: Seq<DataKey>) -> Set<DataKey> {
    keys.to_set().filter(|key: DataKey| records.has(key))
}

impl EnvView {
    /// The plan `plan_id`, if there is one.
    pub open spec fn plan(self, plan_id: u64) -> Option<PlanView> {
        let plans = self.persistent.records.plans;
        if plans.contains_key(DataKey::P(plan_id)) {
            Some(plans[DataKey::P(plan_id)])
        } else {
            None
        }
    }

    /// The vault of plan `plan_id`, if one is linked.
    pub open spec fn vault(self, plan_id: u64) -> Option<Address> {
        let vaults = self.persistent.plan_vaults;
        if vaults.contains_key(VaultKey { plan_id }) {
            Some(vaults[VaultKey { plan_id }])
        } else {
            None
        }
    }

    /// How many will versions of plan `plan_id` are kept.
    pub open spec fn kept_versions(self, plan_id: u64) -> nat {
        let counts = self.persistent.records.counts;
        if counts.contains_key(DataKey::Wvc(plan_id)) {
            at_most(counts[DataKey::Wvc(plan_id)] as nat, self.limits.max_will_versions)
        } else {
            0
        }
    }

    /// The claimants who are listed as having a proof record on plan `plan_id`.
    pub open spec fn claimants_of(self, plan_id: u64) -> Seq<Address> {
        self.persistent.records.claimant_list(claimants_record_key(plan_id))
    }

    /// Whether the number of entries that plan `plan_id` can have fits a `u32`.
    pub open spec fn countable(self, plan_id: u64) -> bool {
        self.limits.fit(self.claimants_of(plan_id).len())
    }

    /// The keys of all records of the plan `plan`, whose id is `plan_id`.
    pub open spec fn keys_of(self, plan: PlanView, plan_id: u64) -> Seq<DataKey> {
        record_keys(
            plan_id,
            at_most(plan.beneficiaries.len(), self.limits.max_beneficiaries),
            self.kept_versions(plan_id),
            self.claimants_of(plan_id),
        )
    }

    /// How many entries the plan `plan_id` occupies.
    pub open spec fn footprint(self, plan_id: u64) -> nat {
        match self.plan(plan_id) {
            Some(plan) => occupied_set(
                self.persistent.records,
                self.keys_of(plan, plan_id),
            ).len() + if self.vault(plan_id) is Some {
                1nat
            } else {
                0nat
            },
            None => 0,
        }
    }

    /// Whether `caller` may clean up a plan of `owner`.
    pub open spec fn admin_or_owner(self, caller: Address, owner: Address) -> bool {
        caller == owner || self.instance.admin == Some(caller)
    }

    /// Why `caller` may not clean up plan `plan_id`, if they may not.
    pub open spec fn cleanup_refusal(self, caller: Address, plan_id: u64) -> Option<
        InheritanceError,
    > {
        match self.plan(plan_id) {
            None => Some(InheritanceError::PlanNotFound),
            Some(plan) => if !closed(plan, self.limits) {
                Some(InheritanceError::PlanNotClaimed)
            } else if !self.admin_or_owner(caller, plan.owner) {
                Some(InheritanceError::Unauthorized)
            } else {
                None
            },
        }
    }

    /// What is sent back to the owner of plan `plan_id` when its vault holds
    /// `balance`.
    pub open spec fn residue(self, plan_id: u64, balance: i128) -> i128 {
        if self.vault(plan_id) is Some && balance > 0 {
            balance
        } else {
            0
        }
    }

    /// The payment of the residue, if there is any: from the vault to the plan
    /// owner.
    pub open spec fn refunds(self, plan: PlanView, plan_id: u64, balance: i128) -> Seq<Transfer> {
        match self.vault(plan_id) {
            Some(vault) => if balance > 0 {
                seq![Transfer { token: plan.token, from: vault, to: plan.owner, amount: balance }]
            } else {
                Seq::empty()
            },
            None => Seq::empty(),
        }
    }

    /// The environment after every entry of the plan `plan`, whose id is
    /// `plan_id`, is released.
    pub open spec fn swept(self, plan: PlanView, plan_id: u64) -> EnvView {
        EnvView {
            persistent: PersistentView {
                records: self.persistent.records.without_all(
                    self.keys_of(plan, plan_id).to_set(),
                ),
                plan_vaults: self.persistent.plan_vaults.remove(VaultKey { plan_id }),
                ..self.persistent
            },
            ..self
        }
    }

    /// The environment after the plan `plan`, whose id is `plan_id`, is cleaned
    /// up while its vault holds `balance`: the residue is on its way to the
    /// owner, the plan's entries are gone, the plan is on no list, and the
    /// clean-up is announced.
    pub open spec fn cleaned(self, plan: PlanView, plan_id: u64, balance: i128) -> EnvView {
        let swept = self.swept(plan, plan_id);
        EnvView {
            persistent: PersistentView {
                records: swept.persistent.records.forgetting(plan.owner, plan_id),
                ..swept.persistent
            },
            transfers: self.transfers + self.refunds(plan, plan_id, balance),
            events: self.events.push(
                Event::PlanStorageCleaned(
                    PlanStorageCleanedEvent {
                        plan_id,
                        owner: plan.owner,
                        rent_refunded: announced(self.residue(plan_id, balance)),
                        entries_released: self.footprint(plan_id) as u32,
                        cleaned_at: self.timestamp,
                    },
                ),
            ),
            ..self
        }
    }
}

/// The refund that is announced where `amount` is sent back: `amount`, or the largest
/// `u64` where that is less.
pub open spec fn announced(amount: i128) -> u64 {
    if amount > u64::MAX {
        u64::MAX
    } else {
        amount as u64
    }
}

/// Whether all beneficiaries that count have claimed.
pub open spec fn all_claimed(plan: PlanView, limits: PlanLimits) -> bool {
    forall|i: int|
        0 <= i < at_most(plan.beneficiaries.len(), limits.max_beneficiaries)
            ==> #[trigger] plan.beneficiaries[i].is_claimed
}

/// Whether a plan can no longer move funds: it is settled, and it is either
/// deactivated or claimed by every beneficiary.
pub open spec fn closed(plan: PlanView, limits: PlanLimits) -> bool {
    &&& plan.total_amount == 0
    &&& plan.total_loaned == 0
    &&& plan.is_active ==> all_claimed(plan, limits)
}

/// Tells the plans other than `plan_id`.
pub open spec fn other_plan_than(plan_id: u64) -> spec_fn(u64) -> bool {
    |listed: u64| listed != plan_id
}

/// The plans of `list` other than `plan_id`, in their order.
pub open spec fn plans_without(list: Seq<u64>, plan_id: u64) -> Seq<u64> {
    list.filter(other_plan_than(plan_id))
}

impl RecordsView {
    /// The entries with `plan_id` taken off the list under `key`. A list that is
    /// left empty is deleted.
    pub open spec fn unlisted(self, key: DataKey, plan_id: u64) -> RecordsView {
        if self.lists.contains_key(key) {
            let rest = plans_without(self.lists[key], plan_id);
            RecordsView {
                lists: if rest.len() == 0 {
                    self.lists.remove(key)
                } else {
                    self.lists.insert(key, rest)
                },
                ..self
            }
        } else {
            self
        }
    }

    /// The entries with `plan_id`, a plan of `owner`, taken off every list of
    /// plans.
    pub open spec fn forgetting(self, owner: Address, plan_id: u64) -> RecordsView {
        self.unlisted(DataKey::Up(owner), plan_id).unlisted(DataKey::Dp, plan_id).unlisted(
            DataKey::Uc(owner),
            plan_id,
        ).unlisted(DataKey::Ac, plan_id)
    }
}

/// A token balance to be read: what `holder` has of `token`.
#[derive(Clone, Copy, Debug, PartialEq, Eq)]
pub struct BalanceQuery {
    pub token: Address,
    pub holder: Address,
}

/// Appends the keys of the records of the first `count` beneficiaries.
fn push_beneficiary_keys(keys: &mut Vec<DataKey>, plan_id: u64, count: u32)
    ensures
        final(keys)@ == old(keys)@ + beneficiary_keys(plan_id, count as nat),
        beneficiary_keys(plan_id, count as nat).len() == 6 * count,
{
    assert(keys@ =~= old(keys)@ + beneficiary_keys(plan_id, 0));
    let mut index: u32 = 0;
    while index < count
        invariant
            0 <= index <= count,
            keys@ == old(keys)@ + beneficiary_keys(plan_id, index as nat),
            beneficiary_keys(plan_id, index as nat).len() == 6 * index,
        decreases count - index,
    {
        let ghost before = keys@;
        keys.push(DataKey::Cs(plan_id, index));
        keys.push(DataKey::Fb(plan_id, index));
        keys.push(DataKey::Bn(plan_id, index));
        keys.push(DataKey::Ba(plan_id, index));
        keys.push(DataKey::Ves(plan_id, index));
        keys.push(genetic_kin_key(plan_id, index));
        assert(keys@ =~= before + one_beneficiary_keys(plan_id, index));
        index += 1;
        assert(keys@ =~= old(keys)@ + beneficiary_keys(plan_id, index as nat));
    }
}

/// Appends the keys of the records that a plan has one of.
fn push_single_keys(keys: &mut Vec<DataKey>, plan_id: u64)
    ensures
        final(keys)@ == old(keys)@ + single_keys(plan_id),
{
    keys.push(DataKey::It(plan_id));
    keys.push(DataKey::Eac(plan_id));
    keys.push(DataKey::Gd(plan_id));
    keys.push(DataKey::Ec(plan_id));
    keys.push(DataKey::Wh(plan_id));
    keys.push(DataKey::Vw(plan_id));
    keys.push(DataKey::Bv(plan_id));
    keys.push(DataKey::Fz(plan_id));
    keys.push(DataKey::Lh(plan_id));
    keys.push(DataKey::Tc(plan_id));
    keys.push(DataKey::Ys(plan_id));
    keys.push(DataKey::Awv(plan_id));
    keys.push(DataKey::Ww(plan_id));
    keys.push(DataKey::Ws(plan_id));
    assert(keys@ =~= old(keys)@ + single_keys(plan_id));
}

/// Appends the keys of the records of the first `count` will versions.
fn push_version_keys(keys: &mut Vec<DataKey>, plan_id: u64, count: u32)
    ensures
        final(keys)@ == old(keys)@ + version_keys(plan_id, count as nat),
        version_keys(plan_id, count as nat).len() == 3 * count,
{
    assert(keys@ =~= old(keys)@ + version_keys(plan_id, 0));
    let mut version: u32 = 0;
    while version < count
        invariant
            0 <= version <= count,
            keys@ == old(keys)@ + version_keys(plan_id, version as nat),
            version_keys(plan_id, version as nat).len() == 3 * version,
        decreases count - version,
    {
        let ghost before = keys@;
        keys.push(DataKey::Wv(plan_id, version));
        keys.push(DataKey::Wf(plan_id, version));
        keys.push(DataKey::Wfa(plan_id, version));
        assert(keys@ =~= before + one_version_keys(plan_id, version));
        version += 1;
        assert(keys@ =~= old(keys)@ + version_keys(plan_id, version as nat));
    }
}

/// Appends the keys of the verified-proof records of `claimants`.
fn push_proof_keys(keys: &mut Vec<DataKey>, plan_id: u64, claimants: &Vec<Address>)
    ensures
        final(keys)@ == old(keys)@ + proof_keys(plan_id, claimants@),
{
    assert(keys@ =~= old(keys)@ + proof_keys(plan_id, claimants@.take(0)));
    let mut i: usize = 0;
    while i < claimants.len()
        invariant
            0 <= i <= claimants@.len(),
            keys@ == old(keys)@ + proof_keys(plan_id, claimants@.take(i as int)),
        decreases claimants@.len() - i,
    {
        keys.push(verified_proof_key(plan_id, &claimants[i]));
        i += 1;
        assert(keys@ =~= old(keys)@ + proof_keys(plan_id, claimants@.take(i as int)));
    }
    assert(claimants@.take(i as int) =~= claimants@);
}

/// The keys of all records of plan `plan_id` with so many beneficiaries, as far as
/// they count.
pub fn plan_record_keys(env: &Env, plan_id: u64, beneficiaries: usize) -> (keys: Vec<DataKey>)
    ensures
        keys@ == record_keys(
            plan_id,
            at_most(beneficiaries as nat, env@.limits.max_beneficiaries),
            env@.kept_versions(plan_id),
            env@.claimants_of(plan_id),
        ),
        keys@.len() <= env@.limits.max_beneficiaries * 6 + env@.limits.max_will_versions * 3
            + env@.claimants_of(plan_id).len() + 17,
{
    let count: u32 = if beneficiaries < env.limits.max_beneficiaries as usize {
        beneficiaries as u32
    } else {
        env.limits.max_beneficiaries
    };
    // Will versions are indexed from 0; the recorded count bounds the sweep.
    let recorded: u32 = match env.persistent.records.counts.get(&DataKey::Wvc(plan_id)) {
        Some(recorded) => *recorded,
        None => 0,
    };
    let versions: u32 = if recorded < env.limits.max_will_versions {
        recorded
    } else {
        env.limits.max_will_versions
    };
    let list: DataKey = claimants_key(plan_id);
    let claimants: Vec<Address> = env.persistent.records.read_claimants(&list);

    let mut keys: Vec<DataKey> = vec![DataKey::P(plan_id)];
    assert(keys@ =~= seq![DataKey::P(plan_id)]);
    push_beneficiary_keys(&mut keys, plan_id, count);
    push_single_keys(&mut keys, plan_id);
    push_version_keys(&mut keys, plan_id, versions);
    let ghost before = keys@;
    keys.push(DataKey::Wvc(plan_id));
    assert(keys@ =~= before + seq![DataKey::Wvc(plan_id)]);
    push_proof_keys(&mut keys, plan_id, &claimants);
    let ghost before = keys@;
    keys.push(list);
    assert(keys@ =~= before + seq![claimants_record_key(plan_id)]);
    keys
}

/// Whether the key at `at` is on the list before.
fn is_repeated(keys: &Vec<DataKey>, at: usize) -> (repeated: bool)
    requires
        at < keys@.len(),
    ensures
        repeated == keys@.take(at as int).contains(keys@[at as int]),
{
    let mut i: usize = 0;
    while i < at
        invariant
            0 <= i <= at < keys@.len(),
            forall|j: int| 0 <= j < i ==> keys@[j] != keys@[at as int],
        decreases at - i,
    {
        if keys[i].same_key(&keys[at]) {
            assert(keys@.take(at as int)[i as int] == keys@[at as int]);
            return true;
        }
        i += 1;
    }
    false
}

/// Whether the number of entries that plan `plan_id` can have fits a `u32`.
pub fn is_countable(env: &Env, plan_id: u64) -> (fits: bool)
    ensures
        fits == env@.countable(plan_id),
{
    let claimants: usize = match env.persistent.records.claimants.get(&claimants_key(plan_id)) {
        Some(list) => list.len(),
        None => 0,
    };
    if claimants > u32::MAX as usize {
        return false;
    }
    let most: u64 = 18 + 6 * env.limits.max_beneficiaries as u64 + 3
        * env.limits.max_will_versions as u64 + claimants as u64;
    most <= u32::MAX as u64
}

/// Number of persistent ledger entries a plan currently occupies.
///
/// Counts the entries under the keys that [`cleanup_closed_plan`] sweeps, each
/// entry once.
pub fn plan_storage_footprint(env: &Env, plan_id: u64) -> (count: u32)
    requires
        env@.countable(plan_id),
    ensures
        count == env@.footprint(plan_id),
{
    let beneficiaries: usize = match env.persistent.records.plans.get(&DataKey::P(plan_id)) {
        Some(plan) => plan.beneficiaries.len(),
        None => return 0,
    };
    let keys: Vec<DataKey> = plan_record_keys(env, plan_id, beneficiaries);
    let ghost records = env@.persistent.records;
    let mut count: u32 = 0;
    let mut i: usize = 0;
    assert(occupied_set(records, keys@.take(0)) =~= Set::empty());
    while i < keys.len()
        invariant
            0 <= i <= keys@.len(),
            keys@.len() < u32::MAX,
            count <= i,
            records == env@.persistent.records,
            count == occupied_set(records, keys@.take(i as int)).len(),
        decreases keys@.len() - i,
    {
        proof {
            lemma_one_more_key(records, keys@, i as int);
        }
        if env.persistent.records.has(&keys[i]) && !is_repeated(&keys, i) {
            count += 1;
        }
        i += 1;
    }
    assert(keys@.take(i as int) =~= keys@);
    if env.persistent.plan_vaults.has(&VaultKey { plan_id }) {
        count += 1;
    }
    count
}

/// Confirm that the plan is genuinely closed, and return what its clean-up
/// needs to know of it: the owner, the token, and the number of beneficiaries.
///
/// A deactivated plan that still holds a balance is not closed: the creator can
/// still withdraw from it, so deleting it would strand that money.
fn plan_for_cleanup(env: &Env, plan_id: u64) -> (result: Result<
    (Address, Address, usize),
    InheritanceError,
>)
    ensures
        match env@.plan(plan_id) {
            None => result == Err::<(Address, Address, usize), _>(InheritanceError::PlanNotFound),
            Some(plan) => if closed(plan, env@.limits) {
                result matches Ok((owner, token, count)) && owner == plan.owner && token
                    == plan.token && count == plan.beneficiaries.len()
            } else {
                result == Err::<(Address, Address, usize), _>(InheritanceError::PlanNotClaimed)
            },
        },
{
    let plan: &InheritancePlan = match env.persistent.records.plans.get(&DataKey::P(plan_id)) {
        Some(plan) => plan,
        None => return Err(InheritanceError::PlanNotFound),
    };
    let ghost view = plan@;
    let count: usize = if plan.beneficiaries.len() < env.limits.max_beneficiaries as usize {
        plan.beneficiaries.len()
    } else {
        env.limits.max_beneficiaries as usize
    };
    let mut claimed = true;
    let mut i: usize = 0;
    while i < count
        invariant
            0 <= i <= count <= plan.beneficiaries@.len(),
            claimed <==> forall|j: int|
                0 <= j < i ==> #[trigger] plan.beneficiaries@[j].is_claimed,
        decreases count - i,
    {
        if !plan.beneficiaries[i].is_claimed {
            claimed = false;
        }
        i += 1;
    }
    assert(view.beneficiaries == plan.beneficiaries@);
    assert(claimed == all_claimed(view, env@.limits));
    let settled = plan.total_amount == 0 && plan.total_loaned == 0;
    let is_closed = if !plan.is_active {
        settled
    } else {
        claimed && settled
    };
    if !is_closed {
        return Err(InheritanceError::PlanNotClaimed);
    }
    Ok((plan.owner, plan.token, plan.beneficiaries.len()))
}

/// Allow the plan owner or a protocol admin to trigger the clean-up.
///
/// The refund always goes to the plan's recorded owner, never to `caller`.
fn require_admin_or_owner(env: &Env, caller: &Address, owner: &Address) -> (result: Result<
    (),
    InheritanceError,
>)
    ensures
        result == if env@.admin_or_owner(*caller, *owner) {
            Ok(())
        } else {
            Err::<(), _>(InheritanceError::Unauthorized)
        },
{
    if same_address(caller, owner) {
        return Ok(());
    }
    if let Some(admin) = &env.instance.admin {
        if same_address(admin, caller) {
            return Ok(());
        }
    }
    Err(InheritanceError::Unauthorized)
}

/// Take `plan_id` off the list under `key`, deleting the entry entirely once it
/// empties so that the list itself stops paying rent.
fn remove_from_list(env: &mut Env, key: &DataKey, plan_id: u64)
    ensures
        final(env)@ == (EnvView {
            persistent: PersistentView {
                records: old(env)@.persistent.records.unlisted(*key, plan_id),
                ..old(env)@.persistent
            },
            ..old(env)@
        }),
{
    let mut plans: Vec<u64> = Vec::new();
    match env.persistent.records.lists.get(key) {
        None => return,
        Some(list) => {
            let mut i: usize = 0;
            proof {
                assert(plans_without(list@.take(0), plan_id) =~= Seq::empty()) by {
                    reveal(Seq::filter);
                }
            }
            while i < list.len()
                invariant
                    0 <= i <= list@.len(),
                    plans@ == plans_without(list@.take(i as int), plan_id),
                decreases list@.len() - i,
            {
                proof {
                    reveal(Seq::filter);
                    assert(list@.take(i + 1).drop_last() =~= list@.take(i as int));
                }
                if list[i] != plan_id {
                    plans.push(list[i]);
                }
                i += 1;
            }
            assert(list@.take(i as int) =~= list@);
        },
    }
    if plans.len() == 0 {
        env.persistent.records.lists.remove(key);
    } else {
        env.persistent.records.lists.set(key, plans);
    }
}

/// Drop the plan from every index that would otherwise point at a plan that no
/// longer exists.
fn forget_plan_everywhere(env: &mut Env, owner: &Address, plan_id: u64)
    ensures
        final(env)@ == (EnvView {
            persistent: PersistentView {
                records: old(env)@.persistent.records.forgetting(*owner, plan_id),
                ..old(env)@.persistent
            },
            ..old(env)@
        }),
{
    remove_from_list(env, &DataKey::Up(*owner), plan_id);
    remove_from_list(env, &DataKey::Dp, plan_id);
    remove_from_list(env, &DataKey::Uc(*owner), plan_id);
    remove_from_list(env, &DataKey::Ac, plan_id);
}

/// Remove a per-plan record and report whether it existed.
fn drop_key(env: &mut Env, key: &DataKey) -> (existed: bool)
    ensures
        existed == old(env)@.persistent.records.has(*key),
        final(env)@ == (EnvView {
            persistent: PersistentView {
                records: old(env)@.persistent.records.without(*key),
                ..old(env)@.persistent
            },
            ..old(env)@
        }),
{
    let existed = env.persistent.records.has(key);
    env.persistent.records.remove(key);
    existed
}

/// Remove a plan's vault address and report whether it existed.
fn drop_vault_key(env: &mut Env, plan_id: u64) -> (existed: bool)
    ensures
        existed == old(env)@.vault(plan_id) is Some,
        final(env)@ == (EnvView {
            persistent: PersistentView {
                plan_vaults: old(env)@.persistent.plan_vaults.remove(VaultKey { plan_id }),
                ..old(env)@.persistent
            },
            ..old(env)@
        }),
{
    let key = VaultKey { plan_id };
    let existed = env.persistent.plan_vaults.has(&key);
    env.persistent.plan_vaults.remove(&key);
    existed
}

/// Deleting one more key of a list deletes one more entry exactly if the key
/// has an entry and is not on the list before.
proof fn lemma_one_more_key(records: RecordsView, keys: Seq<DataKey>, at: int)
    requires
        0 <= at < keys.len(),
    ensures
        ({
            let key = keys[at];
            let before = keys.take(at);
            let after = keys.take(at + 1);
            let rest = records.without_all(before.to_set());
            &&& rest.without(key) == records.without_all(after.to_set())
            &&& occupied_set(records, after).len() == occupied_set(records, before).len() + if rest.has(
                key,
            ) {
                1nat
            } else {
                0nat
            }
            &&& rest.has(key) == (records.has(key) && !before.contains(key))
        }),
{
    let key = keys[at];
    let before = keys.take(at);
    let after = keys.take(at + 1);
    assert(after =~= before.push(key));
    assert(after.to_set() =~= before.to_set().insert(key)) by {
        assert forall|k: DataKey| after.contains(k) <==> before.contains(k) || k == key by {
            if before.contains(k) {
                let i = choose|i: int| 0 <= i < before.len() && before[i] == k;
                assert(after[i] == k);
            }
            assert(after[at] == key);
        }
    }
    let rest = records.without_all(before.to_set());
    assert(rest.without(key) =~= records.without_all(after.to_set()));
    vstd::seq_lib::seq_to_set_is_finite(before);
    let had = occupied_set(records, before);
    if records.has(key) {
        assert(occupied_set(records, after) =~= had.insert(key));
    } else {
        assert(occupied_set(records, after) =~= had);
    }
}

/// Release every entry scoped to a closed plan and return how many entries were
/// released: as many as [`plan_storage_footprint`] counts.
///
/// The caller must already have confirmed that the plan is closed and settled, and
/// must already have swept the vault balance; [`cleanup_closed_plan`] does both.
pub fn release_plan_storage(env: &mut Env, plan_id: u64, beneficiaries: usize) -> (released: u32)
    requires
        old(env)@.countable(plan_id),
        old(env)@.plan(plan_id) matches Some(plan) && plan.beneficiaries.len() == beneficiaries,
    ensures
        released == old(env)@.footprint(plan_id),
        final(env)@ == old(env)@.swept(old(env)@.plan(plan_id).unwrap(), plan_id),
        final(env)@.footprint(plan_id) == 0,
        forall|claimant: Address|
            old(env)@.proofs_listed(plan_id) || old(env)@.claimants_of(plan_id).contains(claimant)
                ==> !(#[trigger] final(env)@.proof_on_file(plan_id, claimant)),
{
    let keys: Vec<DataKey> = plan_record_keys(env, plan_id, beneficiaries);
    let mut released: u32 = 0;
    if drop_vault_key(env, plan_id) {
        released += 1;
    }
    let ghost start = env@;
    let ghost records = old(env)@.persistent.records;
    let ghost vault: nat = released as nat;
    let mut i: usize = 0;
    proof {
        assert(keys@.take(0).to_set() =~= Set::empty());
        assert(records.without_all(Set::empty()) =~= records);
        assert(occupied_set(records, keys@.take(0)) =~= Set::empty());
    }
    while i < keys.len()
        invariant
            0 <= i <= keys@.len(),
            keys@.len() < u32::MAX,
            vault <= 1,
            released <= i + 1,
            start.persistent.records == records,
            env@ == (EnvView {
                persistent: PersistentView {
                    records: records.without_all(keys@.take(i as int).to_set()),
                    ..start.persistent
                },
                ..start
            }),
            released == vault + occupied_set(records, keys@.take(i as int)).len(),
        decreases keys@.len() - i,
    {
        proof {
            lemma_one_more_key(records, keys@, i as int);
        }
        if drop_key(env, &keys[i]) {
            released += 1;
        }
        i += 1;
    }
    assert(keys@.take(i as int) =~= keys@);
    proof {
        sweeping_empties_the_footprint(old(env)@, old(env)@.plan(plan_id).unwrap(), plan_id);
    }
    released
}

/// Take the reentrancy lock for a clean-up and say which balance it needs: what
/// the plan's vault holds of the plan's token, or nothing where no vault is
/// linked.
///
/// Where the clean-up would be refused, it is refused here and the lock stays
/// free. `caller` must have authorized the call.
pub fn cleanup_balance_query(env: &mut Env, caller: &Address, plan_id: u64) -> (result: Result<
    Option<BalanceQuery>,
    InheritanceError,
>)
    requires
        old(env)@.authorized.contains(*caller),
        !lock_held(old(env)@),
    ensures
        match old(env)@.cleanup_refusal(*caller, plan_id) {
            Some(refusal) => result == Err::<Option<BalanceQuery>, _>(refusal) && final(env)@
                == old(env)@,
            None => final(env)@ == old(env)@.locked() && result == Ok::<_, InheritanceError>(
                match old(env)@.vault(plan_id) {
                    Some(vault) => Some(
                        BalanceQuery {
                            token: old(env)@.plan(plan_id).unwrap().token,
                            holder: vault,
                        },
                    ),
                    None => None,
                },
            ),
        },
{
    let (owner, token, _) = match plan_for_cleanup(env, plan_id) {
        Ok(plan) => plan,
        Err(refusal) => return Err(refusal),
    };
    if let Err(refusal) = require_admin_or_owner(env, caller, &owner) {
        return Err(refusal);
    }
    let query = match env.persistent.plan_vaults.get(&VaultKey { plan_id }) {
        Some(vault) => Some(BalanceQuery { token, holder: *vault }),
        None => None,
    };
    reentrancy_enter_or_panic(env);
    Ok(query)
}

/// Send whatever the plan vault still holds back to the plan owner, and return
/// how much that is.
fn refund_vault_residue(
    env: &mut Env,
    owner: &Address,
    token: &Address,
    plan_id: u64,
    vault_balance: i128,
) -> (amount: i128)
    requires
        old(env)@.plan(plan_id) matches Some(plan) && plan.owner == *owner && plan.token == *token,
    ensures
        amount == old(env)@.residue(plan_id, vault_balance),
        final(env)@ == (EnvView {
            transfers: old(env)@.transfers + old(env)@.refunds(
                old(env)@.plan(plan_id).unwrap(),
                plan_id,
                vault_balance,
            ),
            ..old(env)@
        }),
{
    let vault = match env.persistent.plan_vaults.get(&VaultKey { plan_id }) {
        Some(vault) => *vault,
        // Nothing linked: no balance to return.
        None => {
            assert(env@.transfers + Seq::empty() =~= env@.transfers);
            return 0;
        },
    };
    if vault_balance <= 0 {
        assert(env@.transfers + Seq::empty() =~= env@.transfers);
        return 0;
    }
    env.transfers.push(Transfer { token: *token, from: vault, to: *owner, amount: vault_balance });
    vault_balance
}

/// Release the persistent storage of a closed, fully paid-out plan and return
/// the storage-fee rent to the plan creator.
///
/// The second step of a clean-up: `vault_balance` is the balance that
/// [`cleanup_balance_query`] asked for, zero where it asked for none, and the
/// lock that it took is given back. A refused clean-up changes nothing else.
pub fn cleanup_closed_plan(
    env: &mut Env,
    caller: &Address,
    plan_id: u64,
    vault_balance: i128,
) -> (result: Result<(), InheritanceError>)
    requires
        old(env)@.authorized.contains(*caller),
        lock_held(old(env)@),
        old(env)@.countable(plan_id),
    ensures
        match old(env)@.cleanup_refusal(*caller, plan_id) {
            Some(refusal) => result == Err::<(), _>(refusal) && final(env)@ == old(
                env,
            )@.unlocked(),
            None => result == Ok::<(), InheritanceError>(()) && final(env)@ == old(env)@.cleaned(
                old(env)@.plan(plan_id).unwrap(),
                plan_id,
                vault_balance,
            ).unlocked(),
        },
{
    let (owner, token, beneficiaries) = match plan_for_cleanup(env, plan_id) {
        Ok(plan) => plan,
        Err(refusal) => {
            reentrancy_exit(env);
            return Err(refusal);
        },
    };
    if let Err(refusal) = require_admin_or_owner(env, caller, &owner) {
        reentrancy_exit(env);
        return Err(refusal);
    }
    // The vault must be drained before its key is dropped, or a leftover balance
    // would become permanently unreachable.
    let residue: i128 = refund_vault_residue(env, &owner, &token, plan_id, vault_balance);
    let rent_refunded: u64 = if residue > u64::MAX as i128 {
        u64::MAX
    } else {
        residue as u64
    };
    let entries_released: u32 = release_plan_storage(env, plan_id, beneficiaries);
    forget_plan_everywhere(env, &owner, plan_id);
    env.events.push(
        Event::PlanStorageCleaned(
            PlanStorageCleanedEvent {
                plan_id,
                owner,
                rent_refunded,
                entries_released,
                cleaned_at: env.timestamp,
            },
        ),
    );
    reentrancy_exit(env);
    Ok(())
}

} // verus!
