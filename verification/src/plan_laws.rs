//! What the calls on plans decide, count and write, spelled out on the plan and on the
//! ledger entries.

use crate::address::Address;
use crate::cleanup_laws::{
    cleaning_releases_the_footprint, is_list_of, is_requirement_key, lemma_beneficiary_keys_len,
    lemma_cleaned_at, lemma_keys_of, lemma_record_keys, lemma_version_keys_len,
};
use crate::env::{EnvView, InstanceView, PersistentView};
use crate::genetic_proof::{approves, bound_to, is_call, verifier_call};
use crate::invocation::{ArgView, Invocation, InvocationView};
use crate::plan::{
    DataKey, Event, InheritanceError, PlanView, RecordsView, Transfer, VaultKey,
};
use crate::plan_maintenance::{
    all_claimed, announced, at_most, occupied_set, other_plan_than, plans_without, proof_keys,
    record_keys,
};
use crate::zk::{
    claimants_record_key, commitment_preimage, proof_record_key, requirement_record_key,
    sha256_digest, verifier_record_key,
};
use vstd::prelude::*;

verus! {

/// What is read of a plan: its body, its vault, its claimants, and how many of its will
/// versions count.
pub proof fn plans_are_read_off_the_entries(env: EnvView, plan_id: u64)
    ensures
        ({
            let records = env.persistent.records;
            let body = DataKey::P(plan_id);
            let versions = DataKey::Wvc(plan_id);
            let vault = VaultKey { plan_id };
            let list = claimants_record_key(plan_id);
            &&& records.plans.contains_key(body) ==> env.plan(plan_id) == Some(records.plans[body])
            &&& !records.plans.contains_key(body) ==> env.plan(plan_id) is None
            &&& env.persistent.plan_vaults.contains_key(vault) ==> env.vault(plan_id) == Some(
                env.persistent.plan_vaults[vault],
            )
            &&& !env.persistent.plan_vaults.contains_key(vault) ==> env.vault(plan_id) is None
            &&& records.claimants.contains_key(list) ==> env.claimants_of(plan_id)
                == records.claimants[list]
            &&& !records.claimants.contains_key(list) ==> env.claimants_of(plan_id).len() == 0
            &&& !records.counts.contains_key(versions) ==> env.kept_versions(plan_id) == 0
            &&& records.counts.contains_key(versions) ==> {
                &&& env.kept_versions(plan_id) <= records.counts[versions]
                &&& env.kept_versions(plan_id) <= env.limits.max_will_versions
                &&& env.kept_versions(plan_id) == records.counts[versions]
                    || env.kept_versions(plan_id) == env.limits.max_will_versions
            }
            &&& env.countable(plan_id) <==> env.limits.max_beneficiaries * 6
                + env.limits.max_will_versions * 3 + env.claimants_of(plan_id).len() + 18
                < 0x1_0000_0000
        }),
{
}

/// A clean-up goes through exactly if the plan exists, holds nothing and has lent nothing,
/// is deactivated or claimed by every beneficiary that counts, and is cleaned up by its
/// owner or the admin. Otherwise it is refused, and what is wrong first, in this order, is
/// the error.
pub proof fn only_closed_plans_are_cleaned(env: EnvView, caller: Address, plan_id: u64)
    ensures
        ({
            let plans = env.persistent.records.plans;
            let plan = plans[DataKey::P(plan_id)];
            let there = plans.contains_key(DataKey::P(plan_id));
            let claimed = forall|i: int|
                0 <= i < plan.beneficiaries.len() && i < env.limits.max_beneficiaries
                    ==> #[trigger] plan.beneficiaries[i].is_claimed;
            let finished = plan.total_amount == 0 && plan.total_loaned == 0 && (!plan.is_active
                || claimed);
            let allowed = caller == plan.owner || env.instance.admin == Some(caller);
            let refusal = env.cleanup_refusal(caller, plan_id);
            &&& refusal is None <==> there && finished && allowed
            &&& !there ==> refusal == Some(InheritanceError::PlanNotFound)
            &&& there && !finished ==> refusal == Some(InheritanceError::PlanNotClaimed)
            &&& there && finished && !allowed ==> refusal == Some(InheritanceError::Unauthorized)
        }),
{
    let plan = env.persistent.records.plans[DataKey::P(plan_id)];
    assert(all_claimed(plan, env.limits) <==> forall|i: int|
        0 <= i < plan.beneficiaries.len() && i < env.limits.max_beneficiaries
            ==> #[trigger] plan.beneficiaries[i].is_claimed);
}

/// One beneficiary who counts and has not claimed is enough to keep an active plan from
/// being cleaned up.
pub proof fn an_open_claim_keeps_the_plan(
    env: EnvView,
    caller: Address,
    plan_id: u64,
    plan: PlanView,
    index: int,
)
    requires
        env.plan(plan_id) == Some(plan),
        plan.is_active,
        0 <= index < plan.beneficiaries.len(),
        index < env.limits.max_beneficiaries,
        !plan.beneficiaries[index].is_claimed,
    ensures
        env.cleanup_refusal(caller, plan_id) == Some(InheritanceError::PlanNotClaimed),
{
}

/// Whether an entry under `key` counts for the plan `plan`, whose id is `plan_id`.
pub open spec fn counts_for(env: EnvView, plan: PlanView, plan_id: u64, key: DataKey) -> bool {
    env.keys_of(plan, plan_id).contains(key)
}

/// Which entries count for a plan: its body, each record of each of its beneficiaries as
/// far as they count, each record that a plan has one of, the number of its will versions
/// and each record of each version as far as they count, the proof of each listed
/// claimant, and the list of claimants.
pub proof fn the_entries_of_a_plan(env: EnvView, plan: PlanView, plan_id: u64, key: DataKey)
    ensures
        ({
            let people = plan.beneficiaries.len();
            let most = env.limits.max_beneficiaries;
            let versions = env.kept_versions(plan_id);
            counts_for(env, plan, plan_id, key) <==> match key {
                DataKey::P(p) => p == plan_id,
                DataKey::Cs(p, i) => p == plan_id && i < people && i < most,
                DataKey::Fb(p, i) => p == plan_id && i < people && i < most,
                DataKey::Bn(p, i) => p == plan_id && i < people && i < most,
                DataKey::Ba(p, i) => p == plan_id && i < people && i < most,
                DataKey::Ves(p, i) => p == plan_id && i < people && i < most,
                DataKey::Zk(_) => {
                    ||| exists|i: u32|
                        i < people && i < most && #[trigger] requirement_record_key(plan_id, i)
                            == key
                    ||| exists|claimant: Address|
                        env.claimants_of(plan_id).contains(claimant) && #[trigger] proof_record_key(
                            plan_id,
                            claimant,
                        ) == key
                    ||| key == claimants_record_key(plan_id)
                },
                DataKey::It(p) => p == plan_id,
                DataKey::Eac(p) => p == plan_id,
                DataKey::Gd(p) => p == plan_id,
                DataKey::Ec(p) => p == plan_id,
                DataKey::Wh(p) => p == plan_id,
                DataKey::Vw(p) => p == plan_id,
                DataKey::Bv(p) => p == plan_id,
                DataKey::Fz(p) => p == plan_id,
                DataKey::Lh(p) => p == plan_id,
                DataKey::Tc(p) => p == plan_id,
                DataKey::Ys(p) => p == plan_id,
                DataKey::Awv(p) => p == plan_id,
                DataKey::Ww(p) => p == plan_id,
                DataKey::Ws(p) => p == plan_id,
                DataKey::Wvc(p) => p == plan_id,
                DataKey::Wv(p, v) => p == plan_id && v < versions,
                DataKey::Wf(p, v) => p == plan_id && v < versions,
                DataKey::Wfa(p, v) => p == plan_id && v < versions,
                DataKey::Dp => false,
                DataKey::Up(_) => false,
                DataKey::Uc(_) => false,
                DataKey::Ac => false,
            }
        }),
{
    let count = at_most(plan.beneficiaries.len(), env.limits.max_beneficiaries);
    let claimants = env.claimants_of(plan_id);
    let proofs = proof_keys(plan_id, claimants);
    lemma_record_keys(plan_id, count, env.kept_versions(plan_id), claimants, key);
    if proofs.contains(key) {
        let k = choose|k: int| 0 <= k < proofs.len() && proofs[k] == key;
        assert(claimants.contains(claimants[k]) && proof_record_key(plan_id, claimants[k]) == key);
    }
    assert forall|claimant: Address|
        claimants.contains(claimant) && #[trigger] proof_record_key(plan_id, claimant)
            == key implies proofs.contains(key) by {
        let k = choose|k: int| 0 <= k < claimants.len() && claimants[k] == claimant;
        assert(proofs[k] == key);
    }
    if is_requirement_key(key, plan_id, count) {
        let i = choose|i: u32|
            i < count && #[trigger] requirement_record_key(plan_id, i) == key;
        assert(i < plan.beneficiaries.len() && i < env.limits.max_beneficiaries);
    }
}

/// A clean-up and a count go through the keys of the plan's own beneficiaries, versions
/// and claimants, as far as they count.
pub proof fn the_keys_of_a_plan_are_its_own(env: EnvView, plan: PlanView, plan_id: u64)
    ensures
        ({
            let people = plan.beneficiaries.len();
            let most = env.limits.max_beneficiaries;
            let count = at_most(people, most);
            let versions = env.kept_versions(plan_id);
            let claimants = env.claimants_of(plan_id);
            &&& people <= most ==> count == people
            &&& people > most ==> count == most
            &&& env.keys_of(plan, plan_id) == record_keys(plan_id, count, versions, claimants)
            &&& env.keys_of(plan, plan_id).len() == 17 + 6 * count + 3 * versions
                + claimants.len()
        }),
{
    lemma_beneficiary_keys_len(
        plan_id,
        at_most(plan.beneficiaries.len(), env.limits.max_beneficiaries),
    );
    lemma_version_keys_len(plan_id, env.kept_versions(plan_id));
}

/// A plan occupies as many entries as there are under the keys that count for it, and one
/// more where a vault is linked. Without a plan there is nothing to count.
pub proof fn the_footprint_counts_the_entries(env: EnvView, plan: PlanView, plan_id: u64)
    ensures
        env.persistent.records.plans.contains_key(DataKey::P(plan_id))
            && env.persistent.records.plans[DataKey::P(plan_id)] == plan ==> {
            let counted = Set::new(
                |key: DataKey|
                    env.persistent.records.has(key) && counts_for(env, plan, plan_id, key),
            );
            &&& counted.finite()
            &&& env.footprint(plan_id) == counted.len() + if env.persistent.plan_vaults.contains_key(
                VaultKey { plan_id },
            ) {
                1nat
            } else {
                0nat
            }
        },
        !env.persistent.records.plans.contains_key(DataKey::P(plan_id)) ==> env.footprint(plan_id)
            == 0,
{
    let keys = env.keys_of(plan, plan_id);
    vstd::seq_lib::seq_to_set_is_finite(keys);
    assert(occupied_set(env.persistent.records, keys) =~= Set::new(
        |key: DataKey| env.persistent.records.has(key) && counts_for(env, plan, plan_id, key),
    ));
}

/// A new entry under a key that counts for a plan raises its footprint by one, and one
/// under any other key leaves it. So does linking a vault.
pub proof fn a_new_entry_counts_once(env: EnvView, plan: PlanView, plan_id: u64, key: DataKey)
    requires
        env.plan(plan_id) == Some(plan),
        !env.persistent.records.has(key),
    ensures
        ({
            let records = env.persistent.records;
            let after = EnvView {
                persistent: PersistentView {
                    records: RecordsView { others: records.others.insert(key, ()), ..records },
                    ..env.persistent
                },
                ..env
            };
            after.footprint(plan_id) == env.footprint(plan_id) + if counts_for(
                env,
                plan,
                plan_id,
                key,
            ) {
                1nat
            } else {
                0nat
            }
        }),
        env.vault(plan_id) is None ==> forall|vault: Address|
            #![trigger env.persistent.plan_vaults.insert(VaultKey { plan_id }, vault)]
            (EnvView {
                persistent: PersistentView {
                    plan_vaults: env.persistent.plan_vaults.insert(VaultKey { plan_id }, vault),
                    ..env.persistent
                },
                ..env
            }).footprint(plan_id) == env.footprint(plan_id) + 1,
{
    let records = env.persistent.records;
    let keys = env.keys_of(plan, plan_id);
    let more = RecordsView { others: records.others.insert(key, ()), ..records };
    let after = EnvView {
        persistent: PersistentView { records: more, ..env.persistent },
        ..env
    };
    vstd::seq_lib::seq_to_set_is_finite(keys);
    assert(after.keys_of(plan, plan_id) == keys);
    if keys.contains(key) {
        assert(occupied_set(more, keys) =~= occupied_set(records, keys).insert(key));
    } else {
        assert(occupied_set(more, keys) =~= occupied_set(records, keys));
    }
}

/// A sweep deletes exactly the entries that count for the plan, and its vault.
pub proof fn a_sweep_deletes_what_counts(env: EnvView, plan: PlanView, plan_id: u64, key: DataKey)
    ensures
        ({
            let after = env.swept(plan, plan_id);
            &&& counts_for(env, plan, plan_id, key) ==> !after.persistent.records.has(key)
            &&& !counts_for(env, plan, plan_id, key) ==> after.persistent.records.agrees_on(
                env.persistent.records,
                key,
            )
            &&& after == EnvView {
                persistent: PersistentView {
                    records: after.persistent.records,
                    plan_vaults: env.persistent.plan_vaults.remove(VaultKey { plan_id }),
                    ..env.persistent
                },
                ..env
            }
        }),
{
}

/// A clean-up deletes exactly the entries that count for the plan, and its vault, takes
/// the plan off its lists, pays and announces, and does nothing else. A list that it
/// empties it deletes.
pub proof fn a_cleanup_deletes_what_counts(
    env: EnvView,
    plan: PlanView,
    plan_id: u64,
    balance: i128,
    key: DataKey,
)
    ensures
        ({
            let after = env.cleaned(plan, plan_id, balance);
            let records = after.persistent.records;
            let owner = plan.owner;
            let list = key == DataKey::Up(owner) || key == DataKey::Dp || key == DataKey::Uc(owner)
                || key == DataKey::Ac;
            &&& counts_for(env, plan, plan_id, key) ==> !records.has(key)
            &&& !counts_for(env, plan, plan_id, key) && !list ==> records.agrees_on(
                env.persistent.records,
                key,
            )
            &&& list ==> {
                let before = env.persistent.records.lists;
                let rest = before[key].filter(|listed: u64| listed != plan_id);
                &&& records.lists.contains_key(key) <==> before.contains_key(key) && rest.len() > 0
                &&& records.lists.contains_key(key) ==> records.lists[key] == rest
                &&& (RecordsView { lists: before, ..records }).agrees_on(
                    env.persistent.records,
                    key,
                )
            }
            &&& after == EnvView {
                persistent: PersistentView {
                    records,
                    plan_vaults: env.persistent.plan_vaults.remove(VaultKey { plan_id }),
                    ..env.persistent
                },
                transfers: after.transfers,
                events: after.events,
                ..env
            }
        }),
{
    let before = env.persistent.records;
    let owner = plan.owner;
    lemma_keys_of(env, plan, plan_id, key);
    if !is_list_of(key, owner) {
        lemma_cleaned_at(env, plan, plan_id, balance, key);
    } else {
        assert(other_plan_than(plan_id) =~= (|listed: u64| listed
            != plan_id));
        assert(plans_without(before.lists[key], plan_id) == before.lists[key].filter(
            |listed: u64| listed != plan_id,
        ));
        let swept = env.swept(plan, plan_id).persistent.records;
        assert(swept.agrees_on(before, key));
    }
}

/// A clean-up pays what the vault holds, if it holds anything, from the vault to the
/// owner, and nothing else, and announces it once.
pub proof fn a_cleanup_pays_and_announces(
    env: EnvView,
    plan: PlanView,
    plan_id: u64,
    balance: i128,
)
    requires
        env.persistent.records.plans.contains_key(DataKey::P(plan_id)),
        env.persistent.records.plans[DataKey::P(plan_id)] == plan,
        env.countable(plan_id),
    ensures
        ({
            let after = env.cleaned(plan, plan_id, balance);
            let vaults = env.persistent.plan_vaults;
            let vault = VaultKey { plan_id };
            let pays = vaults.contains_key(vault) && balance > 0;
            &&& pays ==> after.transfers == env.transfers.push(
                Transfer {
                    token: plan.token,
                    from: vaults[vault],
                    to: plan.owner,
                    amount: balance,
                },
            )
            &&& !pays ==> after.transfers == env.transfers
            &&& after.events.len() == env.events.len() + 1
            &&& after.events.drop_last() == env.events
            &&& after.events.last() matches Event::PlanStorageCleaned(event)
            &&& event.plan_id == plan_id
            &&& event.owner == plan.owner
            &&& event.entries_released == env.footprint(plan_id)
            &&& event.cleaned_at == env.timestamp
            &&& !pays ==> event.rent_refunded == 0
            &&& pays && balance <= u64::MAX ==> event.rent_refunded == balance
            &&& pays && balance > u64::MAX ==> event.rent_refunded == u64::MAX
        }),
{
    cleaning_releases_the_footprint(env, plan, plan_id, balance);
    assert(env.transfers + Seq::empty() =~= env.transfers);
    assert(env.cleaned(plan, plan_id, balance).transfers =~= env.transfers + env.refunds(
        plan,
        plan_id,
        balance,
    ));
}

/// A verifier's reply approves exactly if it is the value `true`.
pub proof fn only_true_approves<C, F>(reply: Result<Result<bool, C>, F>)
    ensures
        approves(reply) <==> reply == Ok::<Result<bool, C>, F>(Ok::<bool, C>(true)),
{
}

/// The call that has a proof checked: on the verifier, by its entry point, with the proof
/// and then the public inputs.
pub proof fn the_verifier_is_called_with_the_proof(
    verifier: Address,
    proof_bytes: Seq<u8>,
    public_inputs: Seq<[u8; 32]>,
    made: Option<Invocation>,
    wanted: Option<InvocationView>,
)
    ensures
        ({
            let call = verifier_call(verifier, proof_bytes, public_inputs);
            &&& call.contract == verifier
            &&& call.function == "verify"@
            &&& call.args.len() == 2
            &&& call.args[0] == ArgView::Bytes(proof_bytes)
            &&& call.args[1] == ArgView::Digests(public_inputs)
        }),
        is_call(made, wanted) <==> (made is None && wanted is None) || (made is Some && wanted
            is Some && made.unwrap()@ == wanted.unwrap()),
{
}

/// The verifier is the recorded one, and recording one writes that entry alone.
pub proof fn the_verifier_is_an_entry(env: EnvView, verifier: Address)
    ensures
        ({
            let verifiers = env.instance.verifiers;
            let key = verifier_record_key();
            &&& verifiers.contains_key(key) ==> env.zk_verifier() == Some(verifiers[key])
            &&& !verifiers.contains_key(key) ==> env.zk_verifier() is None
            &&& env.with_zk_verifier(verifier) == EnvView {
                instance: InstanceView {
                    verifiers: verifiers.insert(key, verifier),
                    ..env.instance
                },
                ..env
            }
        }),
{
}

/// A claim can be approved exactly if the plan exists and is active, whatever it holds, a
/// verifier is configured, and the commitment of the plan and the claimant is one of the
/// public inputs. Otherwise it is refused, and what is wrong first, in this order, is the
/// error.
pub proof fn only_live_bound_claims_are_approved(
    env: EnvView,
    claimant: Address,
    plan_id: u64,
    public_inputs: Seq<[u8; 32]>,
)
    ensures
        ({
            let plans = env.persistent.records.plans;
            let plan = plans[DataKey::P(plan_id)];
            let there = plans.contains_key(DataKey::P(plan_id));
            let configured = env.instance.verifiers.contains_key(verifier_record_key());
            let bound = exists|i: int|
                0 <= i < public_inputs.len() && #[trigger] public_inputs[i] == sha256_digest(
                    commitment_preimage(plan_id, claimant),
                );
            let refusal = env.kin_claim_refusal(claimant, plan_id, public_inputs);
            &&& bound_to(public_inputs, plan_id, claimant) <==> bound
            &&& refusal is None <==> there && plan.is_active && configured && bound
            &&& !there ==> refusal == Some(InheritanceError::PlanNotFound)
            &&& there && !plan.is_active ==> refusal == Some(InheritanceError::PlanNotActive)
            &&& there && plan.is_active && !(configured && bound) ==> refusal == Some(
                InheritanceError::ZkProofRequired,
            )
        }),
{
}

/// A deactivated plan approves no claim, and an active one takes any that is bound to it.
pub proof fn activity_decides_on_bound_claims(
    env: EnvView,
    claimant: Address,
    plan_id: u64,
    plan: PlanView,
    public_inputs: Seq<[u8; 32]>,
)
    requires
        env.plan(plan_id) == Some(plan),
    ensures
        !plan.is_active ==> env.kin_claim_refusal(claimant, plan_id, public_inputs) == Some(
            InheritanceError::PlanNotActive,
        ),
        plan.is_active && env.zk_verifier() is Some && public_inputs.contains(
            sha256_digest(commitment_preimage(plan_id, claimant)),
        ) ==> env.kin_claim_refusal(claimant, plan_id, public_inputs) is None,
{
}

/// A recorded proof is announced once, and writes the claimant's proof record and the
/// list of the plan's claimants and nothing else.
pub proof fn a_recorded_proof_writes_its_records(
    env: EnvView,
    plan_id: u64,
    claimant: Address,
    key: DataKey,
)
    ensures
        ({
            let after = env.proof_recorded(plan_id, claimant);
            let records = after.persistent.records;
            let record = proof_record_key(plan_id, claimant);
            let list = claimants_record_key(plan_id);
            let before = env.claimants_of(plan_id);
            &&& records.flags.contains_key(record) && records.flags[record]
            &&& key != record && key != list ==> records.agrees_on(env.persistent.records, key)
            &&& list != record ==> if before.contains(claimant) {
                records.agrees_on(env.persistent.records, list)
            } else {
                records.claimants.contains_key(list) && records.claimants[list] == before.push(
                    claimant,
                )
            }
            &&& after.events.len() == env.events.len() + 1
            &&& after.events.drop_last() == env.events
            &&& after.events.last() matches Event::ZkGeneticProofVerified(event)
            &&& event.plan_id == plan_id
            &&& event.claimant == claimant
            &&& event.plan_commitment == sha256_digest(commitment_preimage(plan_id, claimant))
            &&& event.verified_at == env.timestamp
            &&& after == EnvView {
                persistent: PersistentView { records, ..env.persistent },
                events: after.events,
                ..env
            }
        }),
{
    assert(env.proof_recorded(plan_id, claimant).events.drop_last() =~= env.events);
}

/// A requirement can be set exactly by the owner of an existing plan, for each of its
/// beneficiaries as far as they count. Otherwise it is refused, and what is wrong first,
/// in this order, is the error.
pub proof fn only_owners_set_requirements(env: EnvView, owner: Address, plan_id: u64, index: u32)
    ensures
        ({
            let plans = env.persistent.records.plans;
            let plan = plans[DataKey::P(plan_id)];
            let there = plans.contains_key(DataKey::P(plan_id));
            let valid = index < plan.beneficiaries.len() && index < env.limits.max_beneficiaries;
            let refusal = env.requirement_refusal(owner, plan_id, index);
            &&& refusal is None <==> there && plan.owner == owner && valid
            &&& !there ==> refusal == Some(InheritanceError::PlanNotFound)
            &&& there && plan.owner != owner ==> refusal == Some(InheritanceError::Unauthorized)
            &&& there && plan.owner == owner && !valid ==> refusal == Some(
                InheritanceError::InvalidBeneficiaryIndex,
            )
        }),
{
}

/// Proof requirements and proofs on file are the recorded flags. Setting a requirement
/// records its flag, clearing one deletes it, and either touches that entry alone.
pub proof fn requirements_are_entries(
    env: EnvView,
    plan_id: u64,
    index: u32,
    claimant: Address,
    required: bool,
    key: DataKey,
)
    ensures
        ({
            let flags = env.persistent.records.flags;
            let mark = requirement_record_key(plan_id, index);
            let record = proof_record_key(plan_id, claimant);
            let after = env.with_requirement(plan_id, index, required);
            let records = after.persistent.records;
            &&& env.proof_required(plan_id, index) <==> flags.contains_key(mark) && flags[mark]
            &&& env.proof_on_file(plan_id, claimant) <==> flags.contains_key(record)
                && flags[record]
            &&& required ==> records.flags.contains_key(mark) && records.flags[mark]
            &&& !required ==> !records.has(mark)
            &&& key != mark ==> records.agrees_on(env.persistent.records, key)
            &&& after == EnvView {
                persistent: PersistentView { records, ..env.persistent },
                ..env
            }
        }),
{
}

/// What is sent back and announced: everything that the vault holds, and that as far as
/// it can be announced.
pub proof fn residues_are_announced(env: EnvView, plan_id: u64, balance: i128)
    ensures
        env.persistent.plan_vaults.contains_key(VaultKey { plan_id }) && balance > 0
            ==> env.residue(plan_id, balance) == balance,
        !(env.persistent.plan_vaults.contains_key(VaultKey { plan_id }) && balance > 0)
            ==> env.residue(plan_id, balance) == 0,
        0 <= balance <= u64::MAX ==> announced(balance) == balance,
        balance > u64::MAX ==> announced(balance) == u64::MAX,
{
}

} // verus!
