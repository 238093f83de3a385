//! What holds of a clean-up as a whole.

use crate::address::Address;
use crate::env::EnvView;
use crate::plan::{DataKey, Event, InheritanceError, PlanView, RecordsView, Transfer};
use crate::plan_maintenance::{
    announced, at_most, beneficiary_keys, occupied_set, one_beneficiary_keys, one_version_keys,
    other_plan_than, plans_without, proof_keys, record_keys, single_keys, version_keys,
};
use crate::reentrancy::lock_held;
use crate::zk::{
    about_plan, claimants_fields, claimants_record_key, collision, lemma_fields_are_about_the_plan,
    lemma_plans_have_different_fields, proof_fields, proof_record_key, requirement_fields,
    requirement_record_key, sha256_digest, zk_preimage, zk_record_key,
    zk_records_meet_only_in_a_collision, ZK_CLAIMANTS_TAG, ZK_PROOF_TAG, ZK_REQUIREMENT_TAG,
};
use vstd::prelude::*;

verus! {

/// Whether `key` is the proof requirement of one of the first `count`
/// beneficiaries of plan `plan_id`.
pub open spec fn is_requirement_key(key: DataKey, plan_id: u64, count: nat) -> bool {
    exists|index: u32| index < count && #[trigger] requirement_record_key(plan_id, index) == key
}

/// Whether `key` is the proof record of some claimant on plan `plan_id`.
pub open spec fn is_proof_key(key: DataKey, plan_id: u64) -> bool {
    exists|claimant: Address| #[trigger] proof_record_key(plan_id, claimant) == key
}

/// Whether `key` is the key of a record scoped to plan `plan_id`, which has so many
/// beneficiaries and will versions.
pub open spec fn scoped_to(
    key: DataKey,
    plan_id: u64,
    beneficiaries: nat,
    versions: nat,
) -> bool {
    match key {
        DataKey::P(plan) => plan == plan_id,
        DataKey::Cs(plan, index) => plan == plan_id && index < beneficiaries,
        DataKey::Fb(plan, index) => plan == plan_id && index < beneficiaries,
        DataKey::Bn(plan, index) => plan == plan_id && index < beneficiaries,
        DataKey::Ba(plan, index) => plan == plan_id && index < beneficiaries,
        DataKey::Ves(plan, index) => plan == plan_id && index < beneficiaries,
        DataKey::Zk(_) => {
            ||| is_requirement_key(key, plan_id, beneficiaries)
            ||| is_proof_key(key, plan_id)
            ||| key == claimants_record_key(plan_id)
        },
        DataKey::It(plan) => plan == plan_id,
        DataKey::Eac(plan) => plan == plan_id,
        DataKey::Gd(plan) => plan == plan_id,
        DataKey::Ec(plan) => plan == plan_id,
        DataKey::Wh(plan) => plan == plan_id,
        DataKey::Vw(plan) => plan == plan_id,
        DataKey::Bv(plan) => plan == plan_id,
        DataKey::Fz(plan) => plan == plan_id,
        DataKey::Lh(plan) => plan == plan_id,
        DataKey::Tc(plan) => plan == plan_id,
        DataKey::Ys(plan) => plan == plan_id,
        DataKey::Awv(plan) => plan == plan_id,
        DataKey::Ww(plan) => plan == plan_id,
        DataKey::Ws(plan) => plan == plan_id,
        DataKey::Wvc(plan) => plan == plan_id,
        DataKey::Wv(plan, version) => plan == plan_id && version < versions,
        DataKey::Wf(plan, version) => plan == plan_id && version < versions,
        DataKey::Wfa(plan, version) => plan == plan_id && version < versions,
        DataKey::Dp => false,
        DataKey::Up(_) => false,
        DataKey::Uc(_) => false,
        DataKey::Ac => false,
    }
}

impl EnvView {
    /// Whether `key` is the key of a record scoped to the plan `plan`, whose id is
    /// `plan_id`.
    pub open spec fn in_scope(self, key: DataKey, plan: PlanView, plan_id: u64) -> bool {
        scoped_to(
            key,
            plan_id,
            at_most(plan.beneficiaries.len(), self.limits.max_beneficiaries),
            self.kept_versions(plan_id),
        )
    }

    /// Whether the proof records of plan `plan_id` can all be found: each is under
    /// the key of a claimant on the plan's list.
    pub open spec fn proofs_listed(self, plan_id: u64) -> bool {
        forall|claimant: Address|
            self.persistent.records.has(#[trigger] proof_record_key(plan_id, claimant))
                ==> proof_keys(plan_id, self.claimants_of(plan_id)).contains(
                proof_record_key(plan_id, claimant),
            )
    }
}

/// Whether `key` is one of the lists that a plan of `owner` can be on.
pub open spec fn is_list_of(key: DataKey, owner: Address) -> bool {
    key == DataKey::Up(owner) || key == DataKey::Dp || key == DataKey::Uc(owner) || key
        == DataKey::Ac
}

proof fn lemma_concat(left: Seq<DataKey>, right: Seq<DataKey>, key: DataKey)
    ensures
        (left + right).contains(key) <==> left.contains(key) || right.contains(key),
{
    let both = left + right;
    if left.contains(key) {
        let k = choose|k: int| 0 <= k < left.len() && left[k] == key;
        assert(both[k] == key);
    }
    if right.contains(key) {
        let k = choose|k: int| 0 <= k < right.len() && right[k] == key;
        assert(both[left.len() + k] == key);
    }
    if both.contains(key) {
        let k = choose|k: int| 0 <= k < both.len() && both[k] == key;
        if k < left.len() {
            assert(left[k] == key);
        } else {
            assert(right[k - left.len()] == key);
        }
    }
}

/// Whether `key` is the key of a record of one of the first `count` beneficiaries.
spec fn is_beneficiary_key(key: DataKey, plan_id: u64, count: nat) -> bool {
    match key {
        DataKey::Cs(plan, index) => plan == plan_id && index < count,
        DataKey::Fb(plan, index) => plan == plan_id && index < count,
        DataKey::Bn(plan, index) => plan == plan_id && index < count,
        DataKey::Ba(plan, index) => plan == plan_id && index < count,
        DataKey::Ves(plan, index) => plan == plan_id && index < count,
        DataKey::Zk(_) => is_requirement_key(key, plan_id, count),
        _ => false,
    }
}

proof fn lemma_beneficiary_keys(plan_id: u64, count: nat, key: DataKey)
    requires
        count <= u32::MAX,
    ensures
        beneficiary_keys(plan_id, count).contains(key) <==> is_beneficiary_key(key, plan_id, count),
    decreases count,
{
    if count > 0 {
        let fewer = (count - 1) as nat;
        let index = fewer as u32;
        lemma_beneficiary_keys(plan_id, fewer, key);
        let last = one_beneficiary_keys(plan_id, index);
        lemma_concat(beneficiary_keys(plan_id, fewer), last, key);
        assert(last[0] == DataKey::Cs(plan_id, index));
        assert(last[1] == DataKey::Fb(plan_id, index));
        assert(last[2] == DataKey::Bn(plan_id, index));
        assert(last[3] == DataKey::Ba(plan_id, index));
        assert(last[4] == DataKey::Ves(plan_id, index));
        assert(last[5] == requirement_record_key(plan_id, index));
        if is_requirement_key(key, plan_id, fewer) {
            let i = choose|i: u32|
                i < fewer && #[trigger] requirement_record_key(plan_id, i) == key;
            assert(i < count && requirement_record_key(plan_id, i) == key);
        }
        if is_requirement_key(key, plan_id, count) {
            let i = choose|i: u32|
                i < count && #[trigger] requirement_record_key(plan_id, i) == key;
            assert(i < fewer || i == index);
        }
    }
}

/// Whether `key` is the key of a record of one of the first `count` will versions.
spec fn is_version_key(key: DataKey, plan_id: u64, count: nat) -> bool {
    match key {
        DataKey::Wv(plan, version) => plan == plan_id && version < count,
        DataKey::Wf(plan, version) => plan == plan_id && version < count,
        DataKey::Wfa(plan, version) => plan == plan_id && version < count,
        _ => false,
    }
}

proof fn lemma_version_keys(plan_id: u64, count: nat, key: DataKey)
    requires
        count <= u32::MAX,
    ensures
        version_keys(plan_id, count).contains(key) <==> is_version_key(key, plan_id, count),
    decreases count,
{
    if count > 0 {
        let fewer = (count - 1) as nat;
        let version = fewer as u32;
        lemma_version_keys(plan_id, fewer, key);
        let last = one_version_keys(plan_id, version);
        lemma_concat(version_keys(plan_id, fewer), last, key);
        assert(last[0] == DataKey::Wv(plan_id, version));
        assert(last[1] == DataKey::Wf(plan_id, version));
        assert(last[2] == DataKey::Wfa(plan_id, version));
    }
}

proof fn lemma_single_keys(plan_id: u64, key: DataKey)
    ensures
        single_keys(plan_id).contains(key) <==> match key {
            DataKey::It(plan) => plan == plan_id,
            DataKey::Eac(plan) => plan == plan_id,
            DataKey::Gd(plan) => plan == plan_id,
            DataKey::Ec(plan) => plan == plan_id,
            DataKey::Wh(plan) => plan == plan_id,
            DataKey::Vw(plan) => plan == plan_id,
            DataKey::Bv(plan) => plan == plan_id,
            DataKey::Fz(plan) => plan == plan_id,
            DataKey::Lh(plan) => plan == plan_id,
            DataKey::Tc(plan) => plan == plan_id,
            DataKey::Ys(plan) => plan == plan_id,
            DataKey::Awv(plan) => plan == plan_id,
            DataKey::Ww(plan) => plan == plan_id,
            DataKey::Ws(plan) => plan == plan_id,
            _ => false,
        },
{
    let keys = single_keys(plan_id);
    assert(keys[0] == DataKey::It(plan_id));
    assert(keys[1] == DataKey::Eac(plan_id));
    assert(keys[2] == DataKey::Gd(plan_id));
    assert(keys[3] == DataKey::Ec(plan_id));
    assert(keys[4] == DataKey::Wh(plan_id));
    assert(keys[5] == DataKey::Vw(plan_id));
    assert(keys[6] == DataKey::Bv(plan_id));
    assert(keys[7] == DataKey::Fz(plan_id));
    assert(keys[8] == DataKey::Lh(plan_id));
    assert(keys[9] == DataKey::Tc(plan_id));
    assert(keys[10] == DataKey::Ys(plan_id));
    assert(keys[11] == DataKey::Awv(plan_id));
    assert(keys[12] == DataKey::Ww(plan_id));
    assert(keys[13] == DataKey::Ws(plan_id));
}

proof fn lemma_proof_keys(plan_id: u64, claimants: Seq<Address>, key: DataKey)
    ensures
        proof_keys(plan_id, claimants).contains(key) ==> is_proof_key(key, plan_id),
{
    let keys = proof_keys(plan_id, claimants);
    if keys.contains(key) {
        let k = choose|k: int| 0 <= k < keys.len() && keys[k] == key;
        assert(proof_record_key(plan_id, claimants[k]) == key);
    }
}

/// Which keys are swept, part by part.
pub(crate) proof fn lemma_record_keys(
    plan_id: u64,
    beneficiaries: nat,
    versions: nat,
    claimants: Seq<Address>,
    key: DataKey,
)
    requires
        beneficiaries <= u32::MAX,
        versions <= u32::MAX,
    ensures
        record_keys(plan_id, beneficiaries, versions, claimants).contains(key) <==> if key is Zk {
            ||| is_requirement_key(key, plan_id, beneficiaries)
            ||| proof_keys(plan_id, claimants).contains(key)
            ||| key == claimants_record_key(plan_id)
        } else {
            scoped_to(key, plan_id, beneficiaries, versions)
        },
        proof_keys(plan_id, claimants).contains(key) ==> is_proof_key(key, plan_id),
{
    let body = seq![DataKey::P(plan_id)];
    let bens = beneficiary_keys(plan_id, beneficiaries);
    let singles = single_keys(plan_id);
    let vers = version_keys(plan_id, versions);
    let count = seq![DataKey::Wvc(plan_id)];
    let proofs = proof_keys(plan_id, claimants);
    let list = seq![claimants_record_key(plan_id)];
    lemma_concat(body, bens, key);
    lemma_concat(body + bens, singles, key);
    lemma_concat(body + bens + singles, vers, key);
    lemma_concat(body + bens + singles + vers, count, key);
    lemma_concat(body + bens + singles + vers + count, proofs, key);
    lemma_concat(body + bens + singles + vers + count + proofs, list, key);
    assert(body[0] == DataKey::P(plan_id));
    assert(count[0] == DataKey::Wvc(plan_id));
    assert(list[0] == claimants_record_key(plan_id));
    lemma_beneficiary_keys(plan_id, beneficiaries, key);
    lemma_single_keys(plan_id, key);
    lemma_version_keys(plan_id, versions, key);
    lemma_proof_keys(plan_id, claimants, key);
}

/// A key is swept exactly if it is scoped to the plan, but of the proof records only
/// those of listed claimants.
pub proof fn swept_keys_are_scoped(
    plan_id: u64,
    beneficiaries: nat,
    versions: nat,
    claimants: Seq<Address>,
    key: DataKey,
)
    requires
        beneficiaries <= u32::MAX,
        versions <= u32::MAX,
    ensures
        record_keys(plan_id, beneficiaries, versions, claimants).contains(key) ==> scoped_to(
            key,
            plan_id,
            beneficiaries,
            versions,
        ),
        scoped_to(key, plan_id, beneficiaries, versions) ==> record_keys(
            plan_id,
            beneficiaries,
            versions,
            claimants,
        ).contains(key) || is_proof_key(key, plan_id),
        proof_keys(plan_id, claimants).contains(key) ==> record_keys(
            plan_id,
            beneficiaries,
            versions,
            claimants,
        ).contains(key),
{
    lemma_record_keys(plan_id, beneficiaries, versions, claimants, key);
}

pub(crate) proof fn lemma_keys_of(env: EnvView, plan: PlanView, plan_id: u64, key: DataKey)
    ensures
        env.keys_of(plan, plan_id).contains(key) ==> env.in_scope(key, plan, plan_id),
        env.in_scope(key, plan, plan_id) ==> env.keys_of(plan, plan_id).contains(key)
            || is_proof_key(key, plan_id),
        proof_keys(plan_id, env.claimants_of(plan_id)).contains(key) ==> env.keys_of(
            plan,
            plan_id,
        ).contains(key),
{
    swept_keys_are_scoped(
        plan_id,
        at_most(plan.beneficiaries.len(), env.limits.max_beneficiaries),
        env.kept_versions(plan_id),
        env.claimants_of(plan_id),
        key,
    );
}

proof fn lemma_unlisted(records: RecordsView, list: DataKey, plan_id: u64, key: DataKey)
    requires
        key != list,
    ensures
        records.unlisted(list, plan_id).agrees_on(records, key),
{
}

proof fn lemma_forgetting(records: RecordsView, owner: Address, plan_id: u64, key: DataKey)
    requires
        !is_list_of(key, owner),
    ensures
        records.forgetting(owner, plan_id).agrees_on(records, key),
{
    let first = records.unlisted(DataKey::Up(owner), plan_id);
    let second = first.unlisted(DataKey::Dp, plan_id);
    let third = second.unlisted(DataKey::Uc(owner), plan_id);
    lemma_unlisted(records, DataKey::Up(owner), plan_id, key);
    lemma_unlisted(first, DataKey::Dp, plan_id, key);
    lemma_unlisted(second, DataKey::Uc(owner), plan_id, key);
    lemma_unlisted(third, DataKey::Ac, plan_id, key);
}

/// What a clean-up leaves under a key that is not a list's.
pub(crate) proof fn lemma_cleaned_at(
    env: EnvView,
    plan: PlanView,
    plan_id: u64,
    balance: i128,
    key: DataKey,
)
    requires
        !is_list_of(key, plan.owner),
    ensures
        ({
            let after = env.cleaned(plan, plan_id, balance).persistent.records;
            if env.keys_of(plan, plan_id).contains(key) {
                !after.has(key)
            } else {
                after.agrees_on(env.persistent.records, key)
            }
        }),
{
    let swept = env.swept(plan, plan_id).persistent.records;
    lemma_forgetting(swept, plan.owner, plan_id, key);
}

/// A sweep leaves the plan no entries: it occupies none any more, and no listed
/// claimant has a proof on file for it. Where its proof records are listed, no record
/// scoped to it is left and nobody has a proof on file for it.
pub proof fn sweeping_empties_the_footprint(env: EnvView, plan: PlanView, plan_id: u64)
    requires
        env.plan(plan_id) == Some(plan),
    ensures
        ({
            let after = env.swept(plan, plan_id);
            &&& after.footprint(plan_id) == 0
            &&& after.vault(plan_id) is None
            &&& occupied_set(after.persistent.records, env.keys_of(plan, plan_id)).len() == 0
            &&& forall|claimant: Address|
                env.claimants_of(plan_id).contains(claimant) ==> !(
                #[trigger] after.proof_on_file(plan_id, claimant))
            &&& env.proofs_listed(plan_id) ==> {
                &&& forall|key: DataKey| #[trigger]
                    env.in_scope(key, plan, plan_id) ==> !after.persistent.records.has(key)
                &&& forall|claimant: Address| !(#[trigger] after.proof_on_file(plan_id, claimant))
            }
        }),
{
    let after = env.swept(plan, plan_id);
    let keys = env.keys_of(plan, plan_id);
    assert(keys[0] == DataKey::P(plan_id));
    assert(keys.contains(DataKey::P(plan_id)));
    assert(occupied_set(after.persistent.records, keys) =~= Set::empty());
    let listed = env.claimants_of(plan_id);
    assert forall|claimant: Address| listed.contains(claimant) implies !(
    #[trigger] after.proof_on_file(plan_id, claimant)) by {
        let record = proof_record_key(plan_id, claimant);
        let k = choose|k: int| 0 <= k < listed.len() && listed[k] == claimant;
        assert(proof_keys(plan_id, listed)[k] == record);
        lemma_keys_of(env, plan, plan_id, record);
    }
    if env.proofs_listed(plan_id) {
        assert forall|key: DataKey| #[trigger] env.in_scope(
            key,
            plan,
            plan_id,
        ) implies !after.persistent.records.has(key) by {
            lemma_keys_of(env, plan, plan_id, key);
            if !keys.contains(key) && env.persistent.records.has(key) {
                let claimant = choose|claimant: Address| #[trigger]
                    proof_record_key(plan_id, claimant) == key;
                assert(env.persistent.records.has(proof_record_key(plan_id, claimant)));
            }
        }
        assert forall|claimant: Address| !(#[trigger] after.proof_on_file(plan_id, claimant)) by {
            assert(is_proof_key(proof_record_key(plan_id, claimant), plan_id));
            assert(env.in_scope(proof_record_key(plan_id, claimant), plan, plan_id));
        }
    }
}

/// A clean-up leaves nothing of the plan: no body, no vault, no list of claimants
/// and, where its proof records are listed, no other record scoped to it. It
/// occupies no entries any more, nobody has a proof on file for it, and it cannot
/// be cleaned up again.
pub proof fn cleaning_leaves_nothing(
    env: EnvView,
    plan: PlanView,
    plan_id: u64,
    balance: i128,
    caller: Address,
)
    requires
        env.plan(plan_id) == Some(plan),
    ensures
        ({
            let after = env.cleaned(plan, plan_id, balance);
            &&& after.plan(plan_id) is None
            &&& after.vault(plan_id) is None
            &&& after.claimants_of(plan_id).len() == 0
            &&& after.footprint(plan_id) == 0
            &&& after.cleanup_refusal(caller, plan_id) == Some(InheritanceError::PlanNotFound)
            &&& forall|key: DataKey| #[trigger]
                env.keys_of(plan, plan_id).contains(key) ==> !after.persistent.records.has(key)
            &&& env.proofs_listed(plan_id) ==> {
                &&& forall|key: DataKey| #[trigger]
                    env.in_scope(key, plan, plan_id) ==> !after.persistent.records.has(key)
                &&& forall|claimant: Address| !(#[trigger] after.proof_on_file(plan_id, claimant))
            }
        }),
{
    let after = env.cleaned(plan, plan_id, balance);
    let keys = env.keys_of(plan, plan_id);
    assert forall|key: DataKey| #[trigger] keys.contains(key) implies !after.persistent.records.has(
        key,
    ) by {
        lemma_keys_of(env, plan, plan_id, key);
        lemma_cleaned_at(env, plan, plan_id, balance, key);
    }
    assert(keys[0] == DataKey::P(plan_id));
    assert(keys.contains(DataKey::P(plan_id)));
    assert(keys.last() == claimants_record_key(plan_id));
    assert(keys.contains(claimants_record_key(plan_id)));
    if env.proofs_listed(plan_id) {
        let swept = env.swept(plan, plan_id);
        sweeping_empties_the_footprint(env, plan, plan_id);
        assert forall|key: DataKey| #[trigger] env.in_scope(
            key,
            plan,
            plan_id,
        ) implies !after.persistent.records.has(key) by {
            lemma_forgetting(swept.persistent.records, plan.owner, plan_id, key);
        }
        assert forall|claimant: Address| !(#[trigger] after.proof_on_file(plan_id, claimant)) by {
            assert(!swept.proof_on_file(plan_id, claimant));
        }
    }
}

/// A proof that was put on file is released by a clean-up of its plan.
pub proof fn cleaning_releases_a_recorded_proof(
    env: EnvView,
    plan: PlanView,
    plan_id: u64,
    balance: i128,
    claimant: Address,
)
    requires
        env.plan(plan_id) == Some(plan),
    ensures
        ({
            let recorded = env.proof_recorded(plan_id, claimant);
            &&& recorded.plan(plan_id) == Some(plan)
            &&& recorded.proof_on_file(plan_id, claimant)
            &&& !recorded.swept(plan, plan_id).proof_on_file(plan_id, claimant)
            &&& !recorded.cleaned(plan, plan_id, balance).proof_on_file(plan_id, claimant)
        }),
{
    let recorded = env.proof_recorded(plan_id, claimant);
    let listed = recorded.claimants_of(plan_id);
    let keys = recorded.keys_of(plan, plan_id);
    let record = proof_record_key(plan_id, claimant);
    if record == claimants_record_key(plan_id) {
        assert(keys.last() == record);
    } else {
        let before = env.claimants_of(plan_id);
        assert(before.push(claimant)[before.len() as int] == claimant);
        assert(listed.contains(claimant));
        let k = choose|k: int| 0 <= k < listed.len() && listed[k] == claimant;
        assert(proof_keys(plan_id, listed)[k] == record);
        lemma_keys_of(recorded, plan, plan_id, record);
    }
    assert(keys.contains(record));
    lemma_cleaned_at(recorded, plan, plan_id, balance, record);
}

/// A clean-up announces itself once, with the plan and its owner, the time, what is
/// refunded, and as many entries as the plan occupied.
pub proof fn cleaning_releases_the_footprint(
    env: EnvView,
    plan: PlanView,
    plan_id: u64,
    balance: i128,
)
    requires
        env.plan(plan_id) == Some(plan),
        env.countable(plan_id),
    ensures
        ({
            let after = env.cleaned(plan, plan_id, balance);
            &&& after.events.len() == env.events.len() + 1
            &&& after.events.drop_last() == env.events
            &&& after.events.last() matches Event::PlanStorageCleaned(event)
            &&& event.plan_id == plan_id
            &&& event.owner == plan.owner
            &&& event.rent_refunded == announced(env.residue(plan_id, balance))
            &&& event.entries_released == env.footprint(plan_id)
            &&& event.cleaned_at == env.timestamp
        }),
{
    lemma_footprint_fits(env, plan, plan_id);
    assert(env.cleaned(plan, plan_id, balance).events.drop_last() =~= env.events);
}

pub(crate) proof fn lemma_beneficiary_keys_len(plan_id: u64, count: nat)
    ensures
        beneficiary_keys(plan_id, count).len() == 6 * count,
    decreases count,
{
    if count > 0 {
        lemma_beneficiary_keys_len(plan_id, (count - 1) as nat);
    }
}

pub(crate) proof fn lemma_version_keys_len(plan_id: u64, count: nat)
    ensures
        version_keys(plan_id, count).len() == 3 * count,
    decreases count,
{
    if count > 0 {
        lemma_version_keys_len(plan_id, (count - 1) as nat);
    }
}

proof fn lemma_footprint_fits(env: EnvView, plan: PlanView, plan_id: u64)
    requires
        env.plan(plan_id) == Some(plan),
        env.countable(plan_id),
    ensures
        env.footprint(plan_id) <= u32::MAX,
{
    let keys = env.keys_of(plan, plan_id);
    let count = at_most(plan.beneficiaries.len(), env.limits.max_beneficiaries);
    lemma_beneficiary_keys_len(plan_id, count);
    lemma_version_keys_len(plan_id, env.kept_versions(plan_id));
    keys.lemma_cardinality_of_set();
    vstd::seq_lib::seq_to_set_is_finite(keys);
    vstd::set_lib::lemma_len_subset(occupied_set(env.persistent.records, keys), keys.to_set());
}

/// A clean-up touches no record but those scoped to the plan and the lists that
/// the plan can be on.
pub proof fn cleaning_spares_other_records(
    env: EnvView,
    plan: PlanView,
    plan_id: u64,
    balance: i128,
    key: DataKey,
)
    requires
        env.plan(plan_id) == Some(plan),
        !env.in_scope(key, plan, plan_id),
        !is_list_of(key, plan.owner),
    ensures
        env.cleaned(plan, plan_id, balance).persistent.records.agrees_on(
            env.persistent.records,
            key,
        ),
{
    lemma_keys_of(env, plan, plan_id, key);
    lemma_cleaned_at(env, plan, plan_id, balance, key);
}

/// A clean-up of one plan leaves the body, the vault and the will versions of
/// every other plan as they are.
pub proof fn cleaning_spares_other_plans(
    env: EnvView,
    plan: PlanView,
    plan_id: u64,
    balance: i128,
    other: u64,
)
    requires
        env.plan(plan_id) == Some(plan),
        other != plan_id,
    ensures
        env.cleaned(plan, plan_id, balance).plan(other) == env.plan(other),
        env.cleaned(plan, plan_id, balance).vault(other) == env.vault(other),
        env.cleaned(plan, plan_id, balance).kept_versions(other) == env.kept_versions(other),
{
    cleaning_spares_other_records(env, plan, plan_id, balance, DataKey::P(other));
    cleaning_spares_other_records(env, plan, plan_id, balance, DataKey::Wvc(other));
}

/// The list under `key`; no entry means that it is empty.
pub open spec fn listed(records: RecordsView, key: DataKey) -> Seq<u64> {
    if records.lists.contains_key(key) {
        records.lists[key]
    } else {
        Seq::empty()
    }
}

/// Dropping a plan from a list drops every copy of it and nothing else.
proof fn lemma_plans_without(list: Seq<u64>, plan_id: u64, other: u64)
    ensures
        !plans_without(list, plan_id).contains(plan_id),
        other != plan_id ==> plans_without(list, plan_id).contains(other) == list.contains(other),
{
    broadcast use vstd::seq_lib::group_filter_ensures;

    let kept = other_plan_than(plan_id);
    let rest = list.filter(kept);
    if rest.contains(plan_id) {
        let i = choose|i: int| 0 <= i < rest.len() && rest[i] == plan_id;
        assert(kept(rest[i]));
    }
    if other != plan_id {
        if list.contains(other) {
            let i = choose|i: int| 0 <= i < list.len() && list[i] == other;
            assert(kept(list[i]));
            list.lemma_filter_contains(kept, i);
        }
        if rest.contains(other) {
            list.lemma_filter_contains_rev(kept, other);
        }
    }
}

proof fn lemma_taken_off(records: RecordsView, key: DataKey, plan_id: u64)
    ensures
        listed(records.unlisted(key, plan_id), key) == plans_without(listed(records, key), plan_id),
{
    if records.lists.contains_key(key) {
        if plans_without(records.lists[key], plan_id).len() == 0 {
            assert(plans_without(records.lists[key], plan_id) =~= Seq::empty());
        }
    } else {
        reveal(Seq::filter);
    }
}

/// After a clean-up the plan is on none of the lists it could be on, and every
/// other plan is on a list exactly if it was before.
pub proof fn cleaning_takes_the_plan_off_its_lists(
    env: EnvView,
    plan: PlanView,
    plan_id: u64,
    balance: i128,
    list: DataKey,
    other: u64,
)
    requires
        env.plan(plan_id) == Some(plan),
        is_list_of(list, plan.owner),
        other != plan_id,
    ensures
        listed(env.cleaned(plan, plan_id, balance).persistent.records, list) == plans_without(
            listed(env.persistent.records, list),
            plan_id,
        ),
        !listed(env.cleaned(plan, plan_id, balance).persistent.records, list).contains(plan_id),
        listed(env.cleaned(plan, plan_id, balance).persistent.records, list).contains(other)
            == listed(env.persistent.records, list).contains(other),
{
    lemma_keys_of(env, plan, plan_id, list);
    let owner = plan.owner;
    let swept = env.swept(plan, plan_id).persistent.records;
    assert(listed(swept, list) == listed(env.persistent.records, list));
    let first = swept.unlisted(DataKey::Up(owner), plan_id);
    let second = first.unlisted(DataKey::Dp, plan_id);
    let third = second.unlisted(DataKey::Uc(owner), plan_id);
    if list == DataKey::Up(owner) {
        lemma_taken_off(swept, list, plan_id);
    } else if list == DataKey::Dp {
        lemma_taken_off(first, list, plan_id);
    } else if list == DataKey::Uc(owner) {
        lemma_taken_off(second, list, plan_id);
    } else {
        lemma_taken_off(third, list, plan_id);
    }
    lemma_plans_without(listed(env.persistent.records, list), plan_id, other);
}

/// The refund goes to the plan owner, whoever cleans up, and is what the vault
/// held and what is announced. Nothing else is paid.
pub proof fn the_refund_goes_to_the_owner(
    env: EnvView,
    plan: PlanView,
    plan_id: u64,
    balance: i128,
)
    requires
        env.plan(plan_id) == Some(plan),
    ensures
        ({
            let after = env.cleaned(plan, plan_id, balance);
            let paid = after.transfers.skip(env.transfers.len() as int);
            &&& after.transfers.take(env.transfers.len() as int) == env.transfers
            &&& paid.len() <= 1
            &&& after.events.last() matches Event::PlanStorageCleaned(event)
            &&& event.owner == plan.owner
            &&& paid.len() == 0 <==> event.rent_refunded == 0
            &&& paid.len() == 1 ==> {
                &&& paid[0].to == plan.owner
                &&& paid[0].token == plan.token
                &&& Some(paid[0].from) == env.vault(plan_id)
                &&& paid[0].amount == balance
                &&& event.rent_refunded == announced(balance)
                &&& balance <= u64::MAX ==> event.rent_refunded == balance
            }
        }),
{
    let after = env.cleaned(plan, plan_id, balance);
    assert(after.transfers.take(env.transfers.len() as int) =~= env.transfers);
    assert(after.transfers.skip(env.transfers.len() as int) =~= env.refunds(
        plan,
        plan_id,
        balance,
    ));
}

/// What `holder` has of `token` after `transfers`, starting from `balance`.
pub open spec fn balance_after(
    balance: int,
    token: Address,
    holder: Address,
    transfers: Seq<Transfer>,
) -> int
    decreases transfers.len(),
{
    if transfers.len() == 0 {
        balance
    } else {
        let last = transfers.last();
        balance_after(balance, token, holder, transfers.drop_last()) + (if last.token == token
            && last.to == holder {
            last.amount as int
        } else {
            0
        }) - (if last.token == token && last.from == holder {
            last.amount as int
        } else {
            0
        })
    }
}

/// The payment that a clean-up gives rise to drains the vault and brings the owner
/// what it held, which is what is announced.
pub proof fn the_vault_is_drained(
    env: EnvView,
    plan: PlanView,
    plan_id: u64,
    vault: Address,
    balance: i128,
    owned: int,
)
    requires
        env.plan(plan_id) == Some(plan),
        env.vault(plan_id) == Some(vault),
        vault != plan.owner,
        balance >= 0,
    ensures
        ({
            let after = env.cleaned(plan, plan_id, balance);
            let paid = after.transfers.skip(env.transfers.len() as int);
            &&& balance_after(balance as int, plan.token, vault, paid) == 0
            &&& balance_after(owned, plan.token, plan.owner, paid) == owned + balance
            &&& env.residue(plan_id, balance) == balance
        }),
{
    let after = env.cleaned(plan, plan_id, balance);
    let paid = after.transfers.skip(env.transfers.len() as int);
    assert(paid =~= env.refunds(plan, plan_id, balance));
    if balance > 0 {
        assert(paid.drop_last() =~= Seq::empty());
        reveal_with_fuel(balance_after, 2);
    }
}

/// The two steps of a clean-up decide alike, and together they leave the
/// reentrancy lock as they found it.
pub proof fn the_two_steps_agree(
    env: EnvView,
    plan: PlanView,
    plan_id: u64,
    balance: i128,
    caller: Address,
)
    requires
        !lock_held(env),
    ensures
        env.locked().cleanup_refusal(caller, plan_id) == env.cleanup_refusal(caller, plan_id),
        env.locked().unlocked() == env,
        env.locked().cleaned(plan, plan_id, balance).unlocked() == env.cleaned(
            plan,
            plan_id,
            balance,
        ),
{
    assert(env.locked().unlocked() =~= env);
    assert(env.locked().cleaned(plan, plan_id, balance).unlocked() =~= env.cleaned(
        plan,
        plan_id,
        balance,
    ));
}

/// Only a plan without money left is cleaned up, and only by its owner or the
/// admin.
pub proof fn only_settled_plans_are_cleaned(env: EnvView, plan_id: u64, caller: Address)
    requires
        env.cleanup_refusal(caller, plan_id) is None,
    ensures
        env.plan(plan_id) matches Some(plan) && plan.total_amount == 0 && plan.total_loaned == 0
            && (caller == plan.owner || env.instance.admin == Some(caller)),
{
}

/// Whether SHA-256 collides on the pre-images of two hashed keys, one of `left` and
/// one of `right`.
pub open spec fn collision_between(left: Seq<DataKey>, right: Seq<DataKey>) -> bool {
    exists|l: Seq<u8>, r: Seq<u8>|
        left.contains(DataKey::Zk(#[trigger] sha256_digest(l))) && right.contains(
            DataKey::Zk(#[trigger] sha256_digest(r)),
        ) && collision(l, r)
}

/// The kind and the fields of a hashed record that is scoped to a plan.
proof fn lemma_hashed_record(key: DataKey, plan_id: u64, beneficiaries: nat, versions: nat) -> (record: (
    u8,
    Seq<Seq<u8>>,
))
    requires
        scoped_to(key, plan_id, beneficiaries, versions),
        key is Zk,
    ensures
        key == zk_record_key(record.0, record.1),
        about_plan(record.1, plan_id),
{
    lemma_fields_are_about_the_plan(plan_id);
    if is_requirement_key(key, plan_id, beneficiaries) {
        let index = choose|index: u32|
            index < beneficiaries && #[trigger] requirement_record_key(plan_id, index) == key;
        (ZK_REQUIREMENT_TAG, requirement_fields(plan_id, index))
    } else if is_proof_key(key, plan_id) {
        let claimant = choose|claimant: Address| #[trigger]
            proof_record_key(plan_id, claimant) == key;
        (ZK_PROOF_TAG, proof_fields(plan_id, claimant))
    } else {
        (ZK_CLAIMANTS_TAG, claimants_fields(plan_id))
    }
}

/// Two plans have a key in common only where SHA-256 collides on two of their
/// pre-images.
proof fn lemma_plans_share_no_key(
    env: EnvView,
    plan: PlanView,
    plan_id: u64,
    others: Seq<DataKey>,
    other: u64,
    beneficiaries: nat,
    versions: nat,
    key: DataKey,
)
    requires
        plan_id != other,
        env.keys_of(plan, plan_id).contains(key),
        others.contains(key),
        scoped_to(key, other, beneficiaries, versions),
    ensures
        collision_between(env.keys_of(plan, plan_id), others),
{
    lemma_keys_of(env, plan, plan_id, key);
    assert(key is Zk);
    let left = lemma_hashed_record(
        key,
        plan_id,
        at_most(plan.beneficiaries.len(), env.limits.max_beneficiaries),
        env.kept_versions(plan_id),
    );
    let right = lemma_hashed_record(key, other, beneficiaries, versions);
    lemma_plans_have_different_fields(left.1, plan_id, right.1, other);
    zk_records_meet_only_in_a_collision(left.0, left.1, right.0, right.1);
    let l = zk_preimage(left.0, left.1);
    let r = zk_preimage(right.0, right.1);
    assert(key == DataKey::Zk(sha256_digest(l)) && key == DataKey::Zk(sha256_digest(r)));
}

/// A clean-up of one plan leaves the claimants and the footprint of every other plan
/// as they are, unless SHA-256 collides on hashed keys of the two.
pub proof fn cleaning_spares_other_footprints(
    env: EnvView,
    plan: PlanView,
    plan_id: u64,
    balance: i128,
    there: PlanView,
    other: u64,
)
    requires
        env.plan(plan_id) == Some(plan),
        env.plan(other) == Some(there),
        other != plan_id,
    ensures
        ({
            let after = env.cleaned(plan, plan_id, balance);
            ||| after.claimants_of(other) == env.claimants_of(other) && after.footprint(other)
                == env.footprint(other)
            ||| collision_between(env.keys_of(plan, plan_id), env.keys_of(there, other))
        }),
{
    let after = env.cleaned(plan, plan_id, balance);
    let mine = env.keys_of(plan, plan_id);
    let keys = env.keys_of(there, other);
    if !collision_between(mine, keys) {
        cleaning_spares_other_plans(env, plan, plan_id, balance, other);
        assert forall|key: DataKey| #[trigger]
            keys.contains(key) implies after.persistent.records.agrees_on(
            env.persistent.records,
            key,
        ) by {
            lemma_keys_of(env, there, other, key);
            if mine.contains(key) {
                lemma_plans_share_no_key(
                    env,
                    plan,
                    plan_id,
                    keys,
                    other,
                    at_most(there.beneficiaries.len(), env.limits.max_beneficiaries),
                    env.kept_versions(other),
                    key,
                );
            }
            lemma_cleaned_at(env, plan, plan_id, balance, key);
        }
        assert(keys.last() == claimants_record_key(other));
        assert(keys.contains(claimants_record_key(other)));
        assert(after.claimants_of(other) == env.claimants_of(other));
        assert(after.keys_of(there, other) == keys);
        assert(occupied_set(after.persistent.records, keys) =~= occupied_set(
            env.persistent.records,
            keys,
        ));
    }
}

/// A clean-up keeps the proof records of every plan listed, unless SHA-256 collides
/// on a swept key and on the key of another plan's list.
pub proof fn cleaning_keeps_proofs_listed(
    env: EnvView,
    plan: PlanView,
    plan_id: u64,
    balance: i128,
    other: u64,
)
    requires
        env.plan(plan_id) == Some(plan),
        env.proofs_listed(other),
    ensures
        env.cleaned(plan, plan_id, balance).proofs_listed(other) || (other != plan_id
            && collision_between(
            env.keys_of(plan, plan_id),
            seq![claimants_record_key(other)],
        )),
{
    let after = env.cleaned(plan, plan_id, balance);
    let mine = env.keys_of(plan, plan_id);
    let list = claimants_record_key(other);
    let lists = seq![list];
    if other == plan_id {
        cleaning_leaves_nothing(env, plan, plan_id, balance, plan.owner);
        assert forall|claimant: Address| !after.persistent.records.has(
            #[trigger] proof_record_key(other, claimant),
        ) by {
            assert(is_proof_key(proof_record_key(other, claimant), other));
            assert(env.in_scope(proof_record_key(other, claimant), plan, plan_id));
        }
    } else if !collision_between(mine, lists) {
        assert(lists[0] == list);
        assert(lists.contains(list));
        if mine.contains(list) {
            lemma_plans_share_no_key(env, plan, plan_id, lists, other, 0, 0, list);
        }
        lemma_cleaned_at(env, plan, plan_id, balance, list);
        assert(after.claimants_of(other) == env.claimants_of(other));
        assert forall|claimant: Address|
            after.persistent.records.has(
                #[trigger] proof_record_key(other, claimant),
            ) implies env.persistent.records.has(proof_record_key(other, claimant)) by {
            lemma_cleaned_at(env, plan, plan_id, balance, proof_record_key(other, claimant));
        }
    }
}

} // verus!
