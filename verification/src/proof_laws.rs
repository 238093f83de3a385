//! What holds of the records of proofs as a whole: each can be found through the
//! list of its plan's claimants, so that a clean-up of the plan releases it.

use crate::access::{AccessControlKey, Role};
use crate::address::Address;
use crate::env::{empty_env, EnvView};
use crate::plan::PlanLimits;
use crate::plan_maintenance::proof_keys;
use crate::zk::{
    claimants_fields, claimants_record_key, collides_with_plan, lemma_fields_are_about_the_plan,
    lemma_plans_have_different_fields, lemma_shared_key_collides, proof_fields, proof_record_key,
    proof_records_meet_only_in_a_collision, requirement_fields, requirement_record_key,
    zk_preimage, ZK_CLAIMANTS_TAG, ZK_PROOF_TAG, ZK_REQUIREMENT_TAG,
};
use vstd::prelude::*;

verus! {

/// There are no proof records before anything is recorded.
pub proof fn empty_records_are_listed(timestamp: u64, limits: PlanLimits, plan_id: u64)
    ensures
        empty_env(timestamp, limits).proofs_listed(plan_id),
{
}

/// Setting a proof requirement keeps the proof records of every plan listed, unless
/// SHA-256 collides on the requirement and on a hashed record of that plan.
pub proof fn requirements_keep_proofs_listed(
    env: EnvView,
    plan_id: u64,
    index: u32,
    required: bool,
    other: u64,
)
    requires
        env.proofs_listed(other),
    ensures
        env.with_requirement(plan_id, index, required).proofs_listed(other) || collides_with_plan(
            zk_preimage(ZK_REQUIREMENT_TAG, requirement_fields(plan_id, index)),
            other,
        ),
{
    let after = env.with_requirement(plan_id, index, required);
    let fields = requirement_fields(plan_id, index);
    let key = requirement_record_key(plan_id, index);
    lemma_fields_are_about_the_plan(plan_id);
    lemma_fields_are_about_the_plan(other);
    if !collides_with_plan(zk_preimage(ZK_REQUIREMENT_TAG, fields), other) {
        if claimants_record_key(other) == key {
            lemma_shared_key_collides(
                ZK_REQUIREMENT_TAG,
                fields,
                ZK_CLAIMANTS_TAG,
                claimants_fields(other),
                other,
            );
        }
        assert(after.claimants_of(other) == env.claimants_of(other));
        assert forall|claimant: Address|
            after.persistent.records.has(
                #[trigger] proof_record_key(other, claimant),
            ) implies env.persistent.records.has(proof_record_key(other, claimant)) by {
            if proof_record_key(other, claimant) == key {
                lemma_shared_key_collides(
                    ZK_REQUIREMENT_TAG,
                    fields,
                    ZK_PROOF_TAG,
                    proof_fields(other, claimant),
                    other,
                );
            }
        }
    }
}

/// Neither key that a recorded proof writes is a key of another plan's records,
/// unless SHA-256 collides.
proof fn lemma_recorded_keys_are_apart(
    plan_id: u64,
    claimant: Address,
    other: u64,
)
    requires
        plan_id != other,
        !collides_with_plan(zk_preimage(ZK_CLAIMANTS_TAG, claimants_fields(plan_id)), other),
        !collides_with_plan(zk_preimage(ZK_PROOF_TAG, proof_fields(plan_id, claimant)), other),
    ensures
        claimants_record_key(plan_id) != claimants_record_key(other),
        proof_record_key(plan_id, claimant) != claimants_record_key(other),
        forall|one: Address|
            claimants_record_key(plan_id) != #[trigger] proof_record_key(other, one)
                && proof_record_key(plan_id, claimant) != proof_record_key(other, one),
{
    lemma_fields_are_about_the_plan(plan_id);
    lemma_fields_are_about_the_plan(other);
    let list = claimants_fields(plan_id);
    let record = proof_fields(plan_id, claimant);
    let there = claimants_fields(other);
    lemma_plans_have_different_fields(list, plan_id, there, other);
    if claimants_record_key(plan_id) == claimants_record_key(other) {
        lemma_shared_key_collides(ZK_CLAIMANTS_TAG, list, ZK_CLAIMANTS_TAG, there, other);
    }
    if proof_record_key(plan_id, claimant) == claimants_record_key(other) {
        lemma_shared_key_collides(ZK_PROOF_TAG, record, ZK_CLAIMANTS_TAG, there, other);
    }
    assert forall|one: Address|
        claimants_record_key(plan_id) != #[trigger] proof_record_key(other, one)
            && proof_record_key(plan_id, claimant) != proof_record_key(other, one) by {
        let fields = proof_fields(other, one);
        lemma_plans_have_different_fields(record, plan_id, fields, other);
        if claimants_record_key(plan_id) == proof_record_key(other, one) {
            lemma_shared_key_collides(ZK_CLAIMANTS_TAG, list, ZK_PROOF_TAG, fields, other);
        }
        if proof_record_key(plan_id, claimant) == proof_record_key(other, one) {
            lemma_shared_key_collides(ZK_PROOF_TAG, record, ZK_PROOF_TAG, fields, other);
        }
    }
}

/// No proof record of a plan is under the key of the plan's list, unless SHA-256
/// collides.
proof fn lemma_list_key_is_apart(plan_id: u64)
    requires
        !collides_with_plan(zk_preimage(ZK_CLAIMANTS_TAG, claimants_fields(plan_id)), plan_id),
    ensures
        forall|one: Address|
            claimants_record_key(plan_id) != #[trigger] proof_record_key(plan_id, one),
{
    lemma_fields_are_about_the_plan(plan_id);
    assert forall|one: Address|
        claimants_record_key(plan_id) != #[trigger] proof_record_key(plan_id, one) by {
        if claimants_record_key(plan_id) == proof_record_key(plan_id, one) {
            lemma_shared_key_collides(
                ZK_CLAIMANTS_TAG,
                claimants_fields(plan_id),
                ZK_PROOF_TAG,
                proof_fields(plan_id, one),
                plan_id,
            );
        }
    }
}

/// Recording a proof puts its claimant on the plan's list and leaves everybody on it
/// who was, unless SHA-256 collides on the list and on a hashed record of the plan.
/// Nobody is put on the list twice.
pub proof fn recording_lists_the_claimant(env: EnvView, plan_id: u64, claimant: Address)
    ensures
        ({
            let before = env.claimants_of(plan_id);
            let after = env.proof_recorded(plan_id, claimant).claimants_of(plan_id);
            &&& before.no_duplicates() ==> after.no_duplicates()
            &&& {
                ||| after == (if before.contains(claimant) {
                    before
                } else {
                    before.push(claimant)
                }) && after.contains(claimant)
                ||| collides_with_plan(
                    zk_preimage(ZK_CLAIMANTS_TAG, claimants_fields(plan_id)),
                    plan_id,
                )
            }
        }),
{
    let before = env.claimants_of(plan_id);
    assert(before.push(claimant)[before.len() as int] == claimant);
    if !collides_with_plan(zk_preimage(ZK_CLAIMANTS_TAG, claimants_fields(plan_id)), plan_id) {
        lemma_list_key_is_apart(plan_id);
        assert(claimants_record_key(plan_id) != proof_record_key(plan_id, claimant));
    }
}

/// Recording a proof keeps the proof records of every plan listed, unless SHA-256
/// collides on what is written and on a hashed record of that plan.
pub proof fn recording_keeps_proofs_listed(
    env: EnvView,
    plan_id: u64,
    claimant: Address,
    other: u64,
)
    requires
        env.proofs_listed(other),
    ensures
        ({
            ||| env.proof_recorded(plan_id, claimant).proofs_listed(other)
            ||| collides_with_plan(
                zk_preimage(ZK_CLAIMANTS_TAG, claimants_fields(plan_id)),
                other,
            )
            ||| other != plan_id && collides_with_plan(
                zk_preimage(ZK_PROOF_TAG, proof_fields(plan_id, claimant)),
                other,
            )
        }),
{
    let after = env.proof_recorded(plan_id, claimant);
    let list = zk_preimage(ZK_CLAIMANTS_TAG, claimants_fields(plan_id));
    let record = zk_preimage(ZK_PROOF_TAG, proof_fields(plan_id, claimant));
    if collides_with_plan(list, other) {
    } else if other == plan_id {
        lemma_list_key_is_apart(plan_id);
        recording_lists_the_claimant(env, plan_id, claimant);
        let before_keys = proof_keys(plan_id, env.claimants_of(plan_id));
        let after_keys = proof_keys(plan_id, after.claimants_of(plan_id));
        assert forall|one: Address|
            after.persistent.records.has(
                #[trigger] proof_record_key(plan_id, one),
            ) implies after_keys.contains(proof_record_key(plan_id, one)) by {
            let key = proof_record_key(plan_id, one);
            if key == proof_record_key(plan_id, claimant) {
                let listed = after.claimants_of(plan_id);
                let k = choose|k: int| 0 <= k < listed.len() && listed[k] == claimant;
                assert(after_keys[k] == key);
            } else {
                assert(env.persistent.records.has(key));
                let k = choose|k: int| 0 <= k < before_keys.len() && before_keys[k] == key;
                assert(after_keys[k] == key);
            }
        }
    } else if !collides_with_plan(record, other) {
        lemma_recorded_keys_are_apart(plan_id, claimant, other);
        assert(after.claimants_of(other) == env.claimants_of(other));
        assert forall|one: Address|
            after.persistent.records.has(
                #[trigger] proof_record_key(other, one),
            ) implies env.persistent.records.has(proof_record_key(other, one)) by {}
    }
}

/// Where the proof records of a plan are listed, everybody with a proof on file for
/// it is on its list, unless SHA-256 collides on two of its records.
pub proof fn claimants_with_a_proof_are_listed(env: EnvView, plan_id: u64, claimant: Address)
    requires
        env.proofs_listed(plan_id),
        env.proof_on_file(plan_id, claimant),
    ensures
        env.claimants_of(plan_id).contains(claimant) || collides_with_plan(
            zk_preimage(ZK_PROOF_TAG, proof_fields(plan_id, claimant)),
            plan_id,
        ),
{
    let key = proof_record_key(plan_id, claimant);
    let listed = env.claimants_of(plan_id);
    let keys = proof_keys(plan_id, listed);
    assert(env.persistent.records.has(key));
    let k = choose|k: int| 0 <= k < keys.len() && keys[k] == key;
    let one = listed[k];
    if one != claimant {
        lemma_fields_are_about_the_plan(plan_id);
        proof_records_meet_only_in_a_collision(plan_id, claimant, plan_id, one);
    }
}

/// No call but those on plans touches a plan record, so that no other call changes
/// which proof records are listed.
pub proof fn other_calls_touch_no_plan_record(
    env: EnvView,
    one: Address,
    other: Address,
    role: Role,
    flag: AccessControlKey,
    amount: u128,
    version: u32,
    paused: bool,
)
    ensures
        env.role_assigned(one, role).persistent.records == env.persistent.records,
        env.role_revoked(one, role).persistent.records == env.persistent.records,
        env.address_flag_set(flag).persistent.records == env.persistent.records,
        env.address_flag_cleared(flag).persistent.records == env.persistent.records,
        env.relocked(one, amount).persistent.records == env.persistent.records,
        env.delegated(one, other).persistent.records == env.persistent.records,
        env.undelegated(one).persistent.records == env.persistent.records,
        env.pause_switched(paused).persistent.records == env.persistent.records,
        env.operation_entered().persistent.records == env.persistent.records,
        env.operation_left().persistent.records == env.persistent.records,
        env.with_contract_version(version).persistent.records == env.persistent.records,
        env.with_zk_verifier(one).persistent.records == env.persistent.records,
        env.locked().persistent.records == env.persistent.records,
        env.unlocked().persistent.records == env.persistent.records,
        forall|after: EnvView, plan_id: u64|
            after.persistent.records == env.persistent.records ==> #[trigger] after.proofs_listed(
                plan_id,
            ) == env.proofs_listed(plan_id),
{
    assert forall|after: EnvView, plan_id: u64|
        after.persistent.records == env.persistent.records implies #[trigger] after.proofs_listed(
        plan_id,
    ) == env.proofs_listed(plan_id) by {
        assert(after.claimants_of(plan_id) == env.claimants_of(plan_id));
    }
}

} // verus!
