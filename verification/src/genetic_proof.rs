//! Zero-knowledge proofs of genetic kinship.
//!
//! The proofs are checked by a separate verifier contract. This module says
//! which call to make on it ([`zk_proof_invocation`],
//! [`genetic_kin_claim_invocation`]) and decides on its reply
//! ([`verify_zk_genetic_proof`], [`verify_genetic_kin_claim`]). The hook fails
//! closed: a missing verifier, one that reverts, or one that does not answer
//! with a `bool` never approves a claim. A claim's proof is bound to its plan and
//! claimant: their commitment must be among the public inputs that the proof is
//! checked against.

use crate::address::{same_address, same_bytes32, Address};
use crate::env::{Env, EnvView, InstanceView, PersistentView};
use crate::invocation::{Arg, ArgView, Invocation, InvocationView};
use crate::plan::{DataKey, Event, InheritanceError, RecordsView, ZkGeneticProofVerifiedEvent};
use crate::plan_maintenance::at_most;
use crate::reentrancy::{lock_held, reentrancy_enter_or_panic, reentrancy_exit};
use crate::zk::{
    claimants_fields, claimants_key, claimants_record_key, collision, commitment_for,
    commitment_preimage, commitment_preimage_is_injective, genetic_kin_key,
    lemma_fields_are_about_the_plan, proof_fields, proof_meets_requirement_only_in_a_collision,
    proof_record_key, proof_records_meet_only_in_a_collision, requirement_fields,
    requirement_record_key, requirements_meet_only_in_a_collision, sha256_digest,
    verified_proof_key, verifier_key, verifier_record_key, zk_preimage,
    zk_records_meet_only_in_a_collision, ZK_CLAIMANTS_TAG, ZK_PROOF_TAG, ZK_REQUIREMENT_TAG,
};
use vstd::prelude::*;

verus! {

/// Name of the entry point that the Groth16 verifier must expose.
pub const VERIFIER_FN: &'static str = "verify";

/// Whether a verifier's reply approves the proof: it returned, with a `bool`,
/// and the `bool` is `true`.
pub open spec fn approves<C, F>(reply: Result<Result<bool, C>, F>) -> bool {
    reply matches Ok(Ok(valid)) && valid
}

/// The call that has `verifier` check `proof` against `public_inputs`.
pub open spec fn verifier_call(
    verifier: Address,
    proof: Seq<u8>,
    public_inputs: Seq<[u8; 32]>,
) -> InvocationView {
    InvocationView {
        contract: verifier,
        function: VERIFIER_FN@,
        args: seq![ArgView::Bytes(proof), ArgView::Digests(public_inputs)],
    }
}

/// Whether a proof against `public_inputs` is bound to the claim of `claimant` on
/// plan `plan_id`: their commitment is one of the inputs.
pub open spec fn bound_to(public_inputs: Seq<[u8; 32]>, plan_id: u64, claimant: Address) -> bool {
    public_inputs.contains(sha256_digest(commitment_preimage(plan_id, claimant)))
}

/// Whether a call is `call`, or is absent where `call` is.
pub open spec fn is_call(actual: Option<Invocation>, call: Option<InvocationView>) -> bool {
    match (actual, call) {
        (Some(made), Some(wanted)) => made@ == wanted,
        (None, None) => true,
        _ => false,
    }
}

impl EnvView {
    /// The configured verifier, if there is one.
    pub open spec fn zk_verifier(self) -> Option<Address> {
        if self.instance.verifiers.contains_key(verifier_record_key()) {
            Some(self.instance.verifiers[verifier_record_key()])
        } else {
            None
        }
    }

    /// The environment in which `verifier` is configured.
    pub open spec fn with_zk_verifier(self, verifier: Address) -> EnvView {
        EnvView {
            instance: InstanceView {
                verifiers: self.instance.verifiers.insert(verifier_record_key(), verifier),
                ..self.instance
            },
            ..self
        }
    }

    /// The environment with other plan records.
    pub open spec fn with_records(self, records: RecordsView) -> EnvView {
        EnvView { persistent: PersistentView { records, ..self.persistent }, ..self }
    }

    /// Whether beneficiary `index` of plan `plan_id` must present a proof.
    pub open spec fn proof_required(self, plan_id: u64, index: u32) -> bool {
        self.persistent.records.flag(requirement_record_key(plan_id, index))
    }

    /// Whether `claimant` has a verified proof on file for plan `plan_id`.
    pub open spec fn proof_on_file(self, plan_id: u64, claimant: Address) -> bool {
        self.persistent.records.flag(proof_record_key(plan_id, claimant))
    }

    /// Why a genetic-kin claim of `claimant` on plan `plan_id`, with a proof
    /// against `public_inputs`, is refused whatever a verifier would say, if it
    /// is.
    pub open spec fn kin_claim_refusal(
        self,
        claimant: Address,
        plan_id: u64,
        public_inputs: Seq<[u8; 32]>,
    ) -> Option<InheritanceError> {
        match self.plan(plan_id) {
            None => Some(InheritanceError::PlanNotFound),
            Some(plan) => if !plan.is_active {
                Some(InheritanceError::PlanNotActive)
            } else if self.zk_verifier() is None || !bound_to(public_inputs, plan_id, claimant) {
                Some(InheritanceError::ZkProofRequired)
            } else {
                None
            },
        }
    }

    /// The environment after `claimant` is put on the list of the claimants of
    /// plan `plan_id`, and their proof is put on file and announced.
    pub open spec fn proof_recorded(self, plan_id: u64, claimant: Address) -> EnvView {
        EnvView {
            events: self.events.push(
                Event::ZkGeneticProofVerified(
                    ZkGeneticProofVerifiedEvent {
                        plan_id,
                        claimant,
                        plan_commitment: sha256_digest(commitment_preimage(plan_id, claimant)),
                        verified_at: self.timestamp,
                    },
                ),
            ),
            ..self.with_records(
                self.persistent.records.with_claimant(
                    claimants_record_key(plan_id),
                    claimant,
                ).with_flag(proof_record_key(plan_id, claimant)),
            )
        }
    }

    /// Why `owner` may not set the proof requirement of beneficiary `index` of
    /// plan `plan_id`, if they may not.
    pub open spec fn requirement_refusal(self, owner: Address, plan_id: u64, index: u32) -> Option<
        InheritanceError,
    > {
        match self.plan(plan_id) {
            None => Some(InheritanceError::PlanNotFound),
            Some(plan) => if plan.owner != owner {
                Some(InheritanceError::Unauthorized)
            } else if index >= at_most(plan.beneficiaries.len(), self.limits.max_beneficiaries) {
                Some(InheritanceError::InvalidBeneficiaryIndex)
            } else {
                None
            },
        }
    }

    /// The environment in which beneficiary `index` of plan `plan_id` must, or
    /// need not, present a proof.
    pub open spec fn with_requirement(self, plan_id: u64, index: u32, required: bool) -> EnvView {
        let key = requirement_record_key(plan_id, index);
        self.with_records(
            if required {
                self.persistent.records.with_flag(key)
            } else {
                self.persistent.records.without(key)
            },
        )
    }
}

/// Point the contract at the Groth16 verifier that checks genetic proofs. Only the
/// protocol admin may, and only with their authorization.
pub fn set_zk_verifier(env: &mut Env, admin: &Address, verifier: &Address) -> (result: Result<
    (),
    InheritanceError,
>)
    ensures
        if old(env)@.instance.admin == Some(*admin) && old(env)@.authorized.contains(*admin) {
            result == Ok::<(), InheritanceError>(()) && final(env)@ == old(
                env,
            )@.with_zk_verifier(*verifier)
        } else {
            result == Err::<(), _>(InheritanceError::Unauthorized) && final(env)@ == old(env)@
        },
{
    let is_admin = match &env.instance.admin {
        Some(current) => same_address(current, admin),
        None => false,
    };
    if !is_admin || !env.is_authorized(admin) {
        return Err(InheritanceError::Unauthorized);
    }
    env.instance.verifiers.set(&verifier_key(), *verifier);
    Ok(())
}

/// The configured Groth16 verifier, if one has been set.
pub fn get_zk_verifier(env: &Env) -> (verifier: Option<Address>)
    ensures
        verifier == env@.zk_verifier(),
{
    match env.instance.verifiers.get(&verifier_key()) {
        Some(verifier) => Some(*verifier),
        None => None,
    }
}

/// The call that has the configured verifier check `proof`, or `None` where no
/// verifier is configured.
///
/// `public_inputs` is passed through verbatim; the circuit decides what those
/// inputs mean.
pub fn zk_proof_invocation(
    env: &Env,
    proof: Vec<u8>,
    public_inputs: Vec<[u8; 32]>,
) -> (call: Option<Invocation>)
    ensures
        is_call(
            call,
            match env@.zk_verifier() {
                Some(verifier) => Some(verifier_call(verifier, proof@, public_inputs@)),
                None => None,
            },
        ),
{
    match get_zk_verifier(env) {
        Some(verifier) => {
            let args: Vec<Arg> = vec![Arg::Bytes(proof), Arg::Digests(public_inputs)];
            let call = Invocation { contract: verifier, function: VERIFIER_FN, args };
            assert(call@.args =~= seq![ArgView::Bytes(proof@), ArgView::Digests(public_inputs@)]);
            Some(call)
        },
        None => None,
    }
}

/// Whether a zk-SNARK / Groth16 proof of genetic kinship is verified, out of the
/// reply to [`zk_proof_invocation`].
pub fn verify_zk_genetic_proof<C, F>(env: &Env, reply: Result<Result<bool, C>, F>) -> (verified:
    bool)
    ensures
        verified == (env@.zk_verifier() is Some && approves(reply)),
{
    if get_zk_verifier(env).is_none() {
        return false;
    }
    match reply {
        Ok(Ok(valid)) => valid,
        _ => false,
    }
}

/// Whether `digest` is one of `digests`.
fn is_among(digests: &Vec<[u8; 32]>, digest: &[u8; 32]) -> (found: bool)
    ensures
        found == digests@.contains(*digest),
{
    let mut i: usize = 0;
    while i < digests.len()
        invariant
            0 <= i <= digests@.len(),
            forall|j: int| 0 <= j < i ==> digests@[j] != *digest,
        decreases digests@.len() - i,
    {
        if same_bytes32(&digests[i], digest) {
            assert(digests@[i as int] == *digest);
            return true;
        }
        i += 1;
    }
    false
}

/// Refuse a claim that no verifier's reply can save.
fn refuse_kin_claim(
    env: &Env,
    claimant: &Address,
    plan_id: u64,
    public_inputs: &Vec<[u8; 32]>,
) -> (result: Result<(), InheritanceError>)
    ensures
        result == match env@.kin_claim_refusal(*claimant, plan_id, public_inputs@) {
            Some(refusal) => Err::<(), _>(refusal),
            None => Ok(()),
        },
{
    match env.persistent.records.plans.get(&DataKey::P(plan_id)) {
        // The plan must exist: a proof for a nonexistent plan proves nothing.
        None => return Err(InheritanceError::PlanNotFound),
        Some(plan) => {
            // A closed plan has no live genetic claims left to approve.
            if !plan.is_active {
                return Err(InheritanceError::PlanNotActive);
            }
        },
    }
    // Bind the proof to this (plan, claimant) pair, so that a proof minted for
    // one plan cannot be replayed to unlock a claim on another.
    if get_zk_verifier(env).is_none() || !is_among(
        public_inputs,
        &commitment_for(plan_id, claimant),
    ) {
        return Err(InheritanceError::ZkProofRequired);
    }
    Ok(())
}

/// Take the reentrancy lock for a genetic-kin claim and say which call has its
/// proof checked.
///
/// Where the claim is refused whatever the verifier would say, it is refused
/// here and the lock stays free. `claimant` must have authorized the call.
pub fn genetic_kin_claim_invocation(
    env: &mut Env,
    claimant: &Address,
    plan_id: u64,
    proof: Vec<u8>,
    public_inputs: Vec<[u8; 32]>,
) -> (result: Result<Invocation, InheritanceError>)
    requires
        old(env)@.authorized.contains(*claimant),
        !lock_held(old(env)@),
    ensures
        match old(env)@.kin_claim_refusal(*claimant, plan_id, public_inputs@) {
            Some(refusal) => result == Err::<Invocation, _>(refusal) && final(env)@ == old(env)@,
            None => final(env)@ == old(env)@.locked() && (result matches Ok(call) && call@
                == verifier_call(old(env)@.zk_verifier().unwrap(), proof@, public_inputs@)),
        },
{
    if let Err(refusal) = refuse_kin_claim(env, claimant, plan_id, &public_inputs) {
        return Err(refusal);
    }
    match zk_proof_invocation(env, proof, public_inputs) {
        Some(call) => {
            reentrancy_enter_or_panic(env);
            Ok(call)
        },
        None => Err(InheritanceError::ZkProofRequired),
    }
}

/// Approve a genetic-kin claim by verifying a zero-knowledge proof for it.
///
/// The second step of a claim: `reply` is the reply to the call of
/// [`genetic_kin_claim_invocation`], and the lock that it took is given back.
/// On a valid proof that is bound to this plan and claimant the pair is recorded
/// so that the claim path can gate on it; on any other reply, or with public
/// inputs that lack the pair's commitment, nothing is recorded.
pub fn verify_genetic_kin_claim<C, F>(
    env: &mut Env,
    claimant: &Address,
    plan_id: u64,
    public_inputs: &Vec<[u8; 32]>,
    reply: Result<Result<bool, C>, F>,
) -> (result: Result<(), InheritanceError>)
    requires
        old(env)@.authorized.contains(*claimant),
        lock_held(old(env)@),
    ensures
        match old(env)@.kin_claim_refusal(*claimant, plan_id, public_inputs@) {
            Some(refusal) => result == Err::<(), _>(refusal) && final(env)@ == old(
                env,
            )@.unlocked(),
            None => if approves(reply) {
                result == Ok::<(), InheritanceError>(()) && final(env)@ == old(
                    env,
                )@.proof_recorded(plan_id, *claimant).unlocked()
            } else {
                result == Err::<(), _>(InheritanceError::ZkProofRequired) && final(env)@ == old(
                    env,
                )@.unlocked()
            },
        },
{
    if let Err(refusal) = refuse_kin_claim(env, claimant, plan_id, public_inputs) {
        reentrancy_exit(env);
        return Err(refusal);
    }
    if !verify_zk_genetic_proof(env, reply) {
        reentrancy_exit(env);
        return Err(InheritanceError::ZkProofRequired);
    }
    // The list lets a clean-up of the plan find the record again.
    env.persistent.records.add_claimant(&claimants_key(plan_id), claimant);
    env.persistent.records.set_flag(&verified_proof_key(plan_id, claimant));
    env.events.push(
        Event::ZkGeneticProofVerified(
            ZkGeneticProofVerifiedEvent {
                plan_id,
                claimant: *claimant,
                plan_commitment: commitment_for(plan_id, claimant),
                verified_at: env.timestamp,
            },
        ),
    );
    reentrancy_exit(env);
    Ok(())
}

/// Mark a beneficiary as a genetic-kin beneficiary whose claim requires a
/// verified zero-knowledge proof, or clear that mark.
///
/// Only the plan owner may, and only for an index that exists in the plan.
/// `owner` must have authorized the call.
pub fn set_genetic_kin_requirement(
    env: &mut Env,
    owner: &Address,
    plan_id: u64,
    beneficiary_index: u32,
    required: bool,
) -> (result: Result<(), InheritanceError>)
    requires
        old(env)@.authorized.contains(*owner),
    ensures
        match old(env)@.requirement_refusal(*owner, plan_id, beneficiary_index) {
            Some(refusal) => result == Err::<(), _>(refusal) && final(env)@ == old(env)@,
            None => result == Ok::<(), InheritanceError>(()) && final(env)@ == old(
                env,
            )@.with_requirement(plan_id, beneficiary_index, required),
        },
{
    match env.persistent.records.plans.get(&DataKey::P(plan_id)) {
        None => return Err(InheritanceError::PlanNotFound),
        Some(plan) => {
            if !same_address(&plan.owner, owner) {
                return Err(InheritanceError::Unauthorized);
            }
            if beneficiary_index >= env.limits.max_beneficiaries || beneficiary_index as usize
                >= plan.beneficiaries.len() {
                return Err(InheritanceError::InvalidBeneficiaryIndex);
            }
        },
    }
    let key = genetic_kin_key(plan_id, beneficiary_index);
    if required {
        env.persistent.records.set_flag(&key);
    } else {
        env.persistent.records.remove(&key);
    }
    Ok(())
}

/// Whether `beneficiary_index` must present a verified genetic proof.
pub fn is_genetic_kin_required(env: &Env, plan_id: u64, beneficiary_index: u32) -> (required: bool)
    ensures
        required == env@.proof_required(plan_id, beneficiary_index),
{
    env.persistent.records.read_flag(&genetic_kin_key(plan_id, beneficiary_index))
}

/// Whether `claimant` has a verified genetic proof on file for `plan_id`.
pub fn has_verified_genetic_proof(env: &Env, plan_id: u64, claimant: &Address) -> (on_file: bool)
    ensures
        on_file == env@.proof_on_file(plan_id, *claimant),
{
    env.persistent.records.read_flag(&verified_proof_key(plan_id, claimant))
}

/// The commitment a genetic proof must be bound to for this (plan, claimant)
/// pair.
pub fn genetic_proof_commitment(plan_id: u64, claimant: &Address) -> (commitment: [u8; 32])
    ensures
        commitment == sha256_digest(commitment_preimage(plan_id, *claimant)),
{
    commitment_for(plan_id, claimant)
}

/// The hook fails closed: without a verifier, or with any reply but `true`, a
/// claim is refused.
pub proof fn unapproved_claims_are_refused<C, F>(
    env: EnvView,
    claimant: Address,
    plan_id: u64,
    public_inputs: Seq<[u8; 32]>,
    reply: Result<Result<bool, C>, F>,
)
    ensures
        env.zk_verifier() is None ==> env.kin_claim_refusal(claimant, plan_id, public_inputs)
            is Some,
        reply is Err ==> !approves(reply),
        (reply matches Ok(Err(_))) ==> !approves(reply),
        (reply matches Ok(Ok(valid)) && !valid) ==> !approves(reply),
{
}

/// A proof minted for one plan and claimant cannot be replayed for another pair:
/// with that pair's commitment as the only one among its public inputs that
/// belongs to a claim, every other claim is refused, unless SHA-256 collides on
/// the pre-images of the two commitments.
pub proof fn a_proof_is_not_replayed(
    env: EnvView,
    plan_id: u64,
    claimant: Address,
    other_plan: u64,
    other: Address,
    public_inputs: Seq<[u8; 32]>,
)
    requires
        other_plan != plan_id || other != claimant,
        forall|i: int|
            0 <= i < public_inputs.len() ==> (public_inputs[i] == sha256_digest(
                commitment_preimage(plan_id, claimant),
            ) || public_inputs[i] != sha256_digest(commitment_preimage(other_plan, other))),
    ensures
        ({
            ||| env.kin_claim_refusal(other, other_plan, public_inputs) is Some
            ||| collision(
                commitment_preimage(plan_id, claimant),
                commitment_preimage(other_plan, other),
            )
        }),
{
    if bound_to(public_inputs, other_plan, other) {
        commitment_preimage_is_injective(plan_id, claimant, other_plan, other);
    }
}

/// A recorded proof is on file for its plan and claimant, and for no other pair
/// for which it was not on file before, unless SHA-256 collides on their
/// pre-images: a proof does not carry to another plan.
pub proof fn a_proof_is_bound_to_its_plan(
    env: EnvView,
    plan_id: u64,
    claimant: Address,
    other_plan: u64,
    other: Address,
)
    ensures
        env.proof_recorded(plan_id, claimant).proof_on_file(plan_id, claimant),
        other_plan != plan_id || other != claimant ==> {
            ||| env.proof_recorded(plan_id, claimant).proof_on_file(other_plan, other)
                == env.proof_on_file(other_plan, other)
            ||| collision(
                zk_preimage(ZK_PROOF_TAG, proof_fields(plan_id, claimant)),
                zk_preimage(ZK_PROOF_TAG, proof_fields(other_plan, other)),
            )
            ||| collision(
                zk_preimage(ZK_CLAIMANTS_TAG, claimants_fields(plan_id)),
                zk_preimage(ZK_PROOF_TAG, proof_fields(other_plan, other)),
            )
        },
{
    lemma_fields_are_about_the_plan(plan_id);
    lemma_fields_are_about_the_plan(other_plan);
    zk_records_meet_only_in_a_collision(
        ZK_CLAIMANTS_TAG,
        claimants_fields(plan_id),
        ZK_PROOF_TAG,
        proof_fields(other_plan, other),
    );
    if other_plan != plan_id || other != claimant {
        proof_records_meet_only_in_a_collision(plan_id, claimant, other_plan, other);
    }
}

/// Recording a proof changes no proof requirement, unless SHA-256 collides on
/// the pre-images of the two.
pub proof fn a_proof_changes_no_requirement(
    env: EnvView,
    plan_id: u64,
    claimant: Address,
    other_plan: u64,
    index: u32,
)
    ensures
        ({
            ||| env.proof_recorded(plan_id, claimant).proof_required(other_plan, index)
                == env.proof_required(other_plan, index)
            ||| collision(
                zk_preimage(ZK_PROOF_TAG, proof_fields(plan_id, claimant)),
                zk_preimage(ZK_REQUIREMENT_TAG, requirement_fields(other_plan, index)),
            )
            ||| collision(
                zk_preimage(ZK_CLAIMANTS_TAG, claimants_fields(plan_id)),
                zk_preimage(ZK_REQUIREMENT_TAG, requirement_fields(other_plan, index)),
            )
        }),
{
    lemma_fields_are_about_the_plan(plan_id);
    lemma_fields_are_about_the_plan(other_plan);
    zk_records_meet_only_in_a_collision(
        ZK_CLAIMANTS_TAG,
        claimants_fields(plan_id),
        ZK_REQUIREMENT_TAG,
        requirement_fields(other_plan, index),
    );
    proof_meets_requirement_only_in_a_collision(plan_id, claimant, other_plan, index);
}

/// A proof requirement is what it was last set to, and setting it changes no
/// other, unless SHA-256 collides on their pre-images.
pub proof fn requirements_are_what_they_are_set_to(
    env: EnvView,
    plan_id: u64,
    index: u32,
    required: bool,
    other_plan: u64,
    other: u32,
)
    ensures
        env.with_requirement(plan_id, index, required).proof_required(plan_id, index) == required,
        other_plan != plan_id || other != index ==> {
            ||| env.with_requirement(plan_id, index, required).proof_required(other_plan, other)
                == env.proof_required(other_plan, other)
            ||| collision(
                zk_preimage(ZK_REQUIREMENT_TAG, requirement_fields(plan_id, index)),
                zk_preimage(ZK_REQUIREMENT_TAG, requirement_fields(other_plan, other)),
            )
        },
{
    if other_plan != plan_id || other != index {
        requirements_meet_only_in_a_collision(plan_id, index, other_plan, other);
    }
}

/// The verifier that is configured is the verifier that is called, whichever was
/// configured before. Configuring one changes nothing that outlives the instance.
pub proof fn the_configured_verifier_is_read(env: EnvView, verifier: Address)
    ensures
        env.with_zk_verifier(verifier).zk_verifier() == Some(verifier),
        env.with_zk_verifier(verifier).persistent == env.persistent,
{
}

/// The two steps of a claim decide alike, and together they leave the reentrancy
/// lock as they found it.
pub proof fn the_two_steps_agree(
    env: EnvView,
    claimant: Address,
    plan_id: u64,
    public_inputs: Seq<[u8; 32]>,
)
    requires
        !lock_held(env),
    ensures
        env.locked().kin_claim_refusal(claimant, plan_id, public_inputs) == env.kin_claim_refusal(
            claimant,
            plan_id,
            public_inputs,
        ),
        env.locked().unlocked() == env,
        env.locked().proof_recorded(plan_id, claimant).unlocked() == env.proof_recorded(
            plan_id,
            claimant,
        ),
{
    assert(env.locked().unlocked() =~= env);
    assert(env.locked().proof_recorded(plan_id, claimant).unlocked() =~= env.proof_recorded(
        plan_id,
        claimant,
    ));
}

} // verus!
