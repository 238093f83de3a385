//! Closed-plan storage clean-up and the zero-knowledge genetic-proof hook.

use inheritx_access::address::{address_bytes, address_from_bytes, Address};
use inheritx_access::env::Env;
use inheritx_access::genetic_proof::{
    genetic_kin_claim_invocation, genetic_proof_commitment, get_zk_verifier,
    has_verified_genetic_proof, is_genetic_kin_required, set_genetic_kin_requirement,
    set_zk_verifier, verify_genetic_kin_claim, verify_zk_genetic_proof, zk_proof_invocation,
};
use inheritx_access::invocation::{Arg, Invocation};
use inheritx_access::mock_verifier::MockZkVerifier;
use inheritx_access::plan::{
    event_topics, Beneficiary, DataKey, Event, InheritanceError, InheritancePlan, PlanLimits,
    Transfer, VaultKey,
};
use inheritx_access::plan_maintenance::{
    cleanup_balance_query, cleanup_closed_plan, is_countable, plan_record_keys,
    plan_storage_footprint, release_plan_storage, BalanceQuery,
};
use inheritx_access::reentrancy::SecurityKey;
use inheritx_access::zk::{
    claimants_key, genetic_kin_key, verified_proof_key, verifier_key, zk_key,
    MAX_PREIMAGE,
};
use soroban_sdk::xdr::{FromXdr, ToXdr};

// ─── Setup helpers ────────────────────────────────

const NOW: u64 = 1_700_000_000;

/// A ledger with one token, an admin, a plan owner, and perhaps a verifier.
struct World {
    env: Env,
    balances: Vec<(Address, i128)>,
    token: Address,
    admin: Address,
    owner: Address,
    verifier: MockZkVerifier,
    next_plan: u64,
}

fn addr(n: u8) -> Address {
    Address::Contract([n; 32])
}

fn setup() -> World {
    let mut env = Env::new(NOW, PlanLimits { max_beneficiaries: 10, max_will_versions: 10 });
    env.instance.admin = Some(addr(2));
    let mut world = World {
        env,
        balances: Vec::new(),
        token: addr(1),
        admin: addr(2),
        owner: addr(3),
        verifier: MockZkVerifier::new(),
        next_plan: 1,
    };
    let owner = world.owner;
    world.mint(&owner, 10_000_000);
    world
}

impl World {
    fn balance(&self, holder: &Address) -> i128 {
        self.balances.iter().filter(|entry| entry.0 == *holder).map(|entry| entry.1).sum()
    }

    fn mint(&mut self, holder: &Address, amount: i128) {
        self.balances.push((*holder, amount));
    }

    fn pay(&mut self, from: &Address, to: &Address, amount: i128) {
        self.mint(from, -amount);
        self.mint(to, amount);
    }

    /// A funded plan with one beneficiary, after the creation fee of 2%.
    fn create_plan(&mut self, amount: u64) -> u64 {
        let plan_id = self.next_plan;
        self.next_plan += 1;
        let vault = addr(100 + plan_id as u8);
        let owner = self.owner;
        let fee = amount / 50;
        self.pay(&owner, &vault, (amount - fee) as i128);
        self.pay(&owner, &addr(99), fee as i128);
        self.env.persistent.plan_vaults.set(&VaultKey { plan_id }, vault);
        self.env.persistent.records.plans.set(
            &DataKey::P(plan_id),
            InheritancePlan {
                owner,
                token: self.token,
                beneficiaries: vec![Beneficiary { is_claimed: false }],
                total_amount: amount - fee,
                total_loaned: 0,
                is_active: true,
            },
        );
        self.env.persistent.records.others.set(&DataKey::Cs(plan_id, 0), ());
        self.list(&DataKey::Up(owner), plan_id);
        plan_id
    }

    fn list(&mut self, key: &DataKey, plan_id: u64) {
        let mut list: Vec<u64> =
            self.env.persistent.records.lists.get(key).cloned().unwrap_or(Vec::new());
        list.push(plan_id);
        self.env.persistent.records.lists.set(key, list);
    }

    fn listed(&self, key: &DataKey) -> Vec<u64> {
        self.env.persistent.records.lists.get(key).cloned().unwrap_or(Vec::new())
    }

    fn plan(&self, plan_id: u64) -> Option<InheritancePlan> {
        self.env.persistent.records.plans.get(&DataKey::P(plan_id)).cloned()
    }

    fn vault(&self, plan_id: u64) -> Option<Address> {
        self.env.persistent.plan_vaults.get(&VaultKey { plan_id }).copied()
    }

    fn change_plan(&mut self, plan_id: u64, change: impl Fn(&mut InheritancePlan)) {
        let mut plan = self.plan(plan_id).unwrap();
        change(&mut plan);
        self.env.persistent.records.plans.set(&DataKey::P(plan_id), plan);
    }

    fn deactivate(&mut self, plan_id: u64) {
        self.change_plan(plan_id, |plan| plan.is_active = false);
        let owner = self.owner;
        self.list(&DataKey::Dp, plan_id);
        self.list(&DataKey::Uc(owner), plan_id);
    }

    fn withdraw(&mut self, plan_id: u64, amount: u64) {
        self.change_plan(plan_id, |plan| plan.total_amount -= amount);
        let vault = self.vault(plan_id).unwrap();
        let owner = self.owner;
        self.pay(&vault, &owner, amount as i128);
    }

    fn cleanup(&mut self, caller: &Address, plan_id: u64) -> Result<(), InheritanceError> {
        self.env.authorize(caller);
        let balance = match cleanup_balance_query(&mut self.env, caller, plan_id)? {
            Some(query) => {
                assert_eq!(query.token, self.token);
                self.balance(&query.holder)
            }
            None => 0,
        };
        cleanup_closed_plan(&mut self.env, caller, plan_id, balance)?;
        let transfers: Vec<Transfer> = self.env.transfers.drain(..).collect();
        for transfer in transfers {
            self.pay(&transfer.from, &transfer.to, transfer.amount);
        }
        Ok(())
    }

    fn set_verifier(&mut self) {
        let admin = self.admin;
        self.env.authorize(&admin);
        assert_eq!(set_zk_verifier(&mut self.env, &admin, &addr(50)), Ok(()));
    }

    fn ask(&self, call: &Invocation) -> Result<Result<bool, ()>, ()> {
        assert_eq!(call.contract, addr(50));
        assert_eq!(call.function, "verify");
        match (&call.args[0], &call.args[1]) {
            (Arg::Bytes(proof), Arg::Digests(inputs)) => {
                assert_eq!(call.args.len(), 2);
                Ok(Ok(self.verifier.verify(proof, inputs)))
            }
            _ => Err(()),
        }
    }

    fn verify_proof(&self, proof: &[u8], inputs: Vec<[u8; 32]>) -> bool {
        let reply = match zk_proof_invocation(&self.env, proof.to_vec(), inputs) {
            Some(call) => self.ask(&call),
            None => Ok(Ok(true)),
        };
        verify_zk_genetic_proof(&self.env, reply)
    }

    fn claim(
        &mut self,
        claimant: &Address,
        plan_id: u64,
        proof: &[u8],
        inputs: Vec<[u8; 32]>,
    ) -> Result<(), InheritanceError> {
        self.env.authorize(claimant);
        let call = genetic_kin_claim_invocation(
            &mut self.env,
            claimant,
            plan_id,
            proof.to_vec(),
            inputs.clone(),
        )?;
        let reply = self.ask(&call);
        verify_genetic_kin_claim(&mut self.env, claimant, plan_id, &inputs, reply)
    }

    fn require_proof(
        &mut self,
        owner: &Address,
        plan_id: u64,
        index: u32,
        required: bool,
    ) -> Result<(), InheritanceError> {
        self.env.authorize(owner);
        set_genetic_kin_requirement(&mut self.env, owner, plan_id, index, required)
    }
}

fn sha256(data: &[u8]) -> [u8; 32] {
    let env = soroban_sdk::Env::default();
    env.crypto().sha256(&soroban_sdk::Bytes::from_slice(&env, data)).to_array()
}

// ─── Closed-plan storage clean-up ─────────────────

#[test]
fn cleanup_releases_storage_and_refunds_rent_to_creator() {
    let mut world = setup();
    let owner = world.owner;
    let plan_id = world.create_plan(10_000);

    // Give the plan a real footprint beyond the plan body, so the sweep is
    // observable rather than just removing one key.
    world.env.persistent.records.others.set(&DataKey::Gd(plan_id), ());
    let before = plan_storage_footprint(&world.env, plan_id);
    assert!(before > 1, "plan should occupy more than just its body");

    let owner_balance_before = world.balance(&owner);

    // Close the plan: deactivate, then withdraw the remaining balance.
    world.deactivate(plan_id);
    assert_eq!(world.plan(plan_id).unwrap().total_amount, 9800);
    world.withdraw(plan_id, 9800);
    assert_eq!(world.plan(plan_id).unwrap().total_amount, 0);

    assert_eq!(world.cleanup(&owner, plan_id), Ok(()));

    // The plan body is gone from the ledger.
    assert!(world.plan(plan_id).is_none());
    assert_eq!(plan_storage_footprint(&world.env, plan_id), 0);

    // And the creator got the vault residue back rather than it being stranded.
    assert!(world.balance(&owner) > owner_balance_before);
}

#[test]
fn cleanup_rejects_plan_that_is_not_fully_closed() {
    let mut world = setup();
    let owner = world.owner;
    let plan_id = world.create_plan(10_000);

    // Active and fully funded: cleaning up now would delete a live plan.
    assert_eq!(world.cleanup(&owner, plan_id), Err(InheritanceError::PlanNotClaimed));
    assert!(world.plan(plan_id).is_some());

    // Deactivated but still holding a balance is also not closed: the creator
    // can still withdraw, so the vault key must survive.
    world.deactivate(plan_id);
    assert_eq!(world.cleanup(&owner, plan_id), Err(InheritanceError::PlanNotClaimed));
    assert!(world.plan(plan_id).is_some());
    assert!(world.vault(plan_id).is_some());
}

#[test]
fn cleanup_rejects_non_owner_non_admin() {
    let mut world = setup();
    let stranger = addr(9);
    let plan_id = world.create_plan(10_000);
    world.deactivate(plan_id);
    world.withdraw(plan_id, 9800);

    assert_eq!(world.cleanup(&stranger, plan_id), Err(InheritanceError::Unauthorized));
    assert!(world.plan(plan_id).is_some());
}

#[test]
fn cleanup_by_admin_refunds_the_owner_not_the_caller() {
    let mut world = setup();
    let owner = world.owner;
    let admin = world.admin;
    let plan_id = world.create_plan(10_000);
    world.deactivate(plan_id);
    // Settle the plan fully, then have someone send tokens straight to the
    // plan's vault. The plan is closed and its tracked balance is zero, so the
    // clean-up is entitled to sweep that residue back to the owner.
    world.withdraw(plan_id, 9_800);
    let vault = world.vault(plan_id).unwrap();
    world.mint(&vault, 100);

    let owner_before = world.balance(&owner);
    let admin_before = world.balance(&admin);

    assert_eq!(world.cleanup(&admin, plan_id), Ok(()));

    // The refund follows the plan's recorded owner, never the caller.
    assert_eq!(world.balance(&owner), owner_before + 100);
    assert_eq!(world.balance(&admin), admin_before);
}

#[test]
fn cleanup_removes_plan_from_owner_and_global_indexes() {
    let mut world = setup();
    let owner = world.owner;
    let plan_id = world.create_plan(10_000);
    assert!(world.plan(1).unwrap().total_amount > 0);
    assert_eq!(world.listed(&DataKey::Up(owner)).len(), 1);

    world.deactivate(plan_id);
    world.withdraw(plan_id, 9800);
    assert_eq!(world.cleanup(&owner, plan_id), Ok(()));

    assert!(world.listed(&DataKey::Up(owner)).is_empty());
    assert!(world.listed(&DataKey::Uc(owner)).is_empty());
    // The plan body is gone, so asking for it now fails rather than finding
    // stale state.
    assert_eq!(
        world.require_proof(&owner, 1, 0, true),
        Err(InheritanceError::PlanNotFound)
    );
}

#[test]
fn cleanup_is_not_repeatable() {
    let mut world = setup();
    let owner = world.owner;
    let plan_id = world.create_plan(10_000);
    world.deactivate(plan_id);
    world.withdraw(plan_id, 9800);

    assert_eq!(world.cleanup(&owner, plan_id), Ok(()));
    // Second call finds no plan at all.
    assert_eq!(world.cleanup(&owner, plan_id), Err(InheritanceError::PlanNotFound));
}

#[test]
fn an_active_plan_is_closed_once_everybody_has_claimed() {
    let mut world = setup();
    let owner = world.owner;
    let plan_id = world.create_plan(10_000);
    world.withdraw(plan_id, 9800);
    assert_eq!(world.cleanup(&owner, plan_id), Err(InheritanceError::PlanNotClaimed));
    world.change_plan(plan_id, |plan| plan.beneficiaries[0].is_claimed = true);
    world.change_plan(plan_id, |plan| plan.total_loaned = 1);
    assert_eq!(world.cleanup(&owner, plan_id), Err(InheritanceError::PlanNotClaimed));
    world.change_plan(plan_id, |plan| plan.total_loaned = 0);
    assert_eq!(world.cleanup(&owner, plan_id), Ok(()));
}

#[test]
fn a_sweep_releases_every_record_and_announces_it() {
    let mut world = setup();
    let owner = world.owner;
    let plan_id = world.create_plan(10_000);
    let kept = world.create_plan(5_000);
    world.deactivate(plan_id);
    world.withdraw(plan_id, 9800);
    world.list(&DataKey::Ac, kept);
    world.list(&DataKey::Ac, plan_id);
    let vault = world.vault(plan_id).unwrap();
    world.mint(&vault, 42);

    // Two will versions, a third record beyond the count, and everything else a
    // plan can have.
    world.env.persistent.records.counts.set(&DataKey::Wvc(plan_id), 2);
    let keys = plan_record_keys(&world.env, plan_id, 1);
    assert_eq!(keys.len(), 1 + 6 + 14 + 6 + 1 + 1);
    for key in keys.iter() {
        if !world.env.persistent.records.has(key) {
            world.env.persistent.records.others.set(key, ());
        }
    }
    world.env.persistent.records.others.set(&DataKey::Wv(plan_id, 2), ());
    let footprint_kept = plan_storage_footprint(&world.env, kept);
    assert_eq!(plan_storage_footprint(&world.env, plan_id), 30);

    world.env.authorize(&owner);
    let query = cleanup_balance_query(&mut world.env, &owner, plan_id).unwrap().unwrap();
    assert_eq!(query, BalanceQuery { token: world.token, holder: vault });
    assert!(world.env.temporary.locks.has(&SecurityKey::ReentrancyLock));
    assert_eq!(cleanup_closed_plan(&mut world.env, &owner, plan_id, 42), Ok(()));
    assert!(!world.env.temporary.locks.has(&SecurityKey::ReentrancyLock));

    for key in keys.iter() {
        assert!(!world.env.persistent.records.has(key));
    }
    assert!(world.env.persistent.records.has(&DataKey::Wv(plan_id, 2)));
    assert_eq!(plan_storage_footprint(&world.env, kept), footprint_kept);
    assert_eq!(world.listed(&DataKey::Ac), vec![kept]);
    assert_eq!(world.listed(&DataKey::Up(owner)), vec![kept]);
    assert!(!world.env.persistent.records.has(&DataKey::Dp));
    assert_eq!(
        world.env.transfers,
        vec![Transfer { token: world.token, from: vault, to: owner, amount: 42 }]
    );
    assert_eq!(world.env.events.len(), 1);
    assert_eq!(event_topics(&world.env.events[0]), ("PLAN", "CLEAN"));
    match world.env.events[0] {
        Event::PlanStorageCleaned(event) => {
            assert_eq!(event.plan_id, plan_id);
            assert_eq!(event.owner, owner);
            assert_eq!(event.rent_refunded, 42);
            assert_eq!(event.entries_released, 30);
            assert_eq!(event.cleaned_at, NOW);
        }
        _ => panic!("unexpected event"),
    }
}

#[test]
fn a_plan_without_a_vault_needs_no_balance() {
    let mut world = setup();
    let owner = world.owner;
    let plan_id = world.create_plan(10_000);
    world.deactivate(plan_id);
    world.withdraw(plan_id, 9800);
    world.env.persistent.plan_vaults.remove(&VaultKey { plan_id });
    world.env.authorize(&owner);
    assert_eq!(cleanup_balance_query(&mut world.env, &owner, plan_id), Ok(None));
    assert_eq!(cleanup_closed_plan(&mut world.env, &owner, plan_id, 7), Ok(()));
    assert!(world.env.transfers.is_empty());
}

#[test]
fn a_residue_beyond_the_announced_range_is_refunded_in_full() {
    let mut world = setup();
    let owner = world.owner;
    let limit = u64::MAX as i128;
    for (residue, announced) in [(limit, u64::MAX), (limit + 6, u64::MAX), (i128::MAX, u64::MAX)] {
        let plan_id = world.create_plan(10_000);
        world.deactivate(plan_id);
        world.withdraw(plan_id, 9800);
        let vault = world.vault(plan_id).unwrap();
        world.env.authorize(&owner);
        assert!(cleanup_balance_query(&mut world.env, &owner, plan_id).is_ok());
        assert_eq!(cleanup_closed_plan(&mut world.env, &owner, plan_id, residue), Ok(()));
        assert_eq!(
            world.env.transfers.pop(),
            Some(Transfer { token: world.token, from: vault, to: owner, amount: residue })
        );
        match world.env.events.pop() {
            Some(Event::PlanStorageCleaned(event)) => assert_eq!(event.rent_refunded, announced),
            _ => panic!("unexpected event"),
        }
    }
}

#[test]
fn the_sweep_releases_the_footprint() {
    let mut world = setup();
    let plan_id = world.create_plan(10_000);
    world.env.persistent.records.others.set(&DataKey::Lh(plan_id), ());
    let footprint = plan_storage_footprint(&world.env, plan_id);
    assert_eq!(footprint, 4);
    assert_eq!(release_plan_storage(&mut world.env, plan_id, 1), footprint);
    assert_eq!(plan_storage_footprint(&world.env, plan_id), 0);
}

#[test]
fn entries_are_countable_up_to_the_limit() {
    let mut world = setup();
    assert!(is_countable(&world.env, 1));
    // 18 + 6 * 10 + 3 * n
    world.env.limits = PlanLimits { max_beneficiaries: 10, max_will_versions: 1_431_655_739 };
    assert!(is_countable(&world.env, 1));
    world.env.persistent.records.claimants.set(&claimants_key(1), vec![addr(60)]);
    assert!(!is_countable(&world.env, 1));
    assert!(is_countable(&world.env, 2));
    world.env.limits = PlanLimits { max_beneficiaries: u32::MAX, max_will_versions: u32::MAX };
    assert!(!is_countable(&world.env, 2));
}

#[test]
fn a_missing_plan_has_no_footprint() {
    let world = setup();
    assert_eq!(plan_storage_footprint(&world.env, 77), 0);
}

#[test]
fn lists_lose_every_copy_of_the_plan() {
    let mut world = setup();
    let owner = world.owner;
    let plan_id = world.create_plan(10_000);
    world.deactivate(plan_id);
    world.withdraw(plan_id, 9800);
    for id in [5, plan_id, 6, plan_id] {
        world.list(&DataKey::Ac, id);
    }
    assert_eq!(world.cleanup(&owner, plan_id), Ok(()));
    assert_eq!(world.listed(&DataKey::Ac), vec![5, 6]);
}

// ─── Zero-knowledge genetic proof ─────────────────

#[test]
fn mock_verifier_responds_to_a_direct_call() {
    let mut verifier = MockZkVerifier::new();
    let expected = sha256(b"x");
    verifier.set_expected(expected);
    assert!(verifier.verify(&b"p".to_vec(), &vec![expected]));
    assert!(!verifier.verify(&b"p".to_vec(), &Vec::new()));
}

#[test]
fn a_mock_verifier_expects_zeros_until_told() {
    let mut verifier = MockZkVerifier::new();
    assert!(verifier.verify(&Vec::new(), &vec![[0u8; 32]]));
    assert!(!verifier.verify(&Vec::new(), &vec![[1u8; 32], [0u8; 32]]));
    verifier.set_reject_all(true);
    assert!(!verifier.verify(&Vec::new(), &vec![[0u8; 32]]));
    verifier.set_reject_all(false);
    assert!(verifier.verify(&Vec::new(), &vec![[0u8; 32]]));
}

#[test]
fn zk_verification_fails_closed_without_a_configured_verifier() {
    let mut world = setup();
    let owner = world.owner;

    // No verifier registered: the hook must not approve anything.
    assert!(get_zk_verifier(&world.env).is_none());
    assert!(!world.verify_proof(b"proof", vec![sha256(b"x")]));

    let plan_id = world.create_plan(10_000);
    assert_eq!(
        world.claim(&owner, plan_id, b"proof", Vec::new()),
        Err(InheritanceError::ZkProofRequired)
    );
}

#[test]
fn zk_verification_survives_a_rejecting_verifier() {
    let mut world = setup();
    world.set_verifier();
    assert!(get_zk_verifier(&world.env).is_some());

    // Stand in for a verifier that reverts or misbehaves.
    world.verifier.set_reject_all(true);

    assert!(!world.verify_proof(b"proof", vec![sha256(b"x")]));
}

#[test]
fn only_a_returned_true_approves() {
    let mut world = setup();
    world.set_verifier();
    assert!(verify_zk_genetic_proof::<(), ()>(&world.env, Ok(Ok(true))));
    assert!(!verify_zk_genetic_proof::<(), ()>(&world.env, Ok(Ok(false))));
    assert!(!verify_zk_genetic_proof::<(), ()>(&world.env, Ok(Err(()))));
    assert!(!verify_zk_genetic_proof::<(), ()>(&world.env, Err(())));
}

#[test]
fn valid_proof_records_claimant_and_binds_to_the_plan() {
    let mut world = setup();
    world.set_verifier();
    let plan_id = world.create_plan(10_000);

    let claimant = addr(60);
    let commitment = genetic_proof_commitment(plan_id, &claimant);
    world.verifier.set_expected(commitment);

    assert!(!has_verified_genetic_proof(&world.env, plan_id, &claimant));

    assert_eq!(world.claim(&claimant, plan_id, b"proof", vec![commitment]), Ok(()));

    assert!(has_verified_genetic_proof(&world.env, plan_id, &claimant));
    // The proof is bound to this plan, so it does not carry to another.
    assert!(!has_verified_genetic_proof(&world.env, plan_id + 1, &claimant));
    assert!(!has_verified_genetic_proof(&world.env, plan_id, &Address::Account([60; 32])));

    assert!(!world.env.temporary.locks.has(&SecurityKey::ReentrancyLock));
    assert_eq!(world.env.events.len(), 1);
    assert_eq!(event_topics(&world.env.events[0]), ("ZK", "VERIFY"));
    match world.env.events[0] {
        Event::ZkGeneticProofVerified(event) => {
            assert_eq!(event.plan_id, plan_id);
            assert_eq!(event.claimant, claimant);
            assert_eq!(event.plan_commitment, commitment);
            assert_eq!(event.verified_at, NOW);
        }
        _ => panic!("unexpected event"),
    }
}

#[test]
fn invalid_proof_records_nothing() {
    let mut world = setup();
    world.set_verifier();
    let plan_id = world.create_plan(10_000);
    let claimant = addr(60);
    // Verifier expects a different commitment than the one supplied.
    world.verifier.set_expected(sha256(b"other"));

    let commitment = genetic_proof_commitment(plan_id, &claimant);
    assert_eq!(
        world.claim(&claimant, plan_id, b"proof", vec![commitment]),
        Err(InheritanceError::ZkProofRequired)
    );
    assert!(!has_verified_genetic_proof(&world.env, plan_id, &claimant));
    assert!(world.env.events.is_empty());
    assert!(!world.env.temporary.locks.has(&SecurityKey::ReentrancyLock));
}

#[test]
fn genetic_kin_requirement_is_owner_only_and_index_bounded() {
    let mut world = setup();
    let owner = world.owner;
    let stranger = addr(9);
    let plan_id = world.create_plan(10_000);

    // A non-owner cannot set the flag.
    assert_eq!(
        world.require_proof(&stranger, plan_id, 0, true),
        Err(InheritanceError::Unauthorized)
    );

    // Nor can the owner set it for an index the plan does not have.
    assert_eq!(
        world.require_proof(&owner, plan_id, 7, true),
        Err(InheritanceError::InvalidBeneficiaryIndex)
    );

    assert!(!is_genetic_kin_required(&world.env, plan_id, 0));
    assert_eq!(world.require_proof(&owner, plan_id, 0, true), Ok(()));
    assert!(is_genetic_kin_required(&world.env, plan_id, 0));
    assert!(!is_genetic_kin_required(&world.env, plan_id, 1));

    // And it can be cleared again.
    assert_eq!(world.require_proof(&owner, plan_id, 0, false), Ok(()));
    assert!(!is_genetic_kin_required(&world.env, plan_id, 0));
}

#[test]
fn a_required_proof_is_on_file_only_after_a_verified_claim() {
    let mut world = setup();
    world.set_verifier();
    let owner = world.owner;
    let plan_id = world.create_plan(10_000);
    assert_eq!(world.require_proof(&owner, plan_id, 0, true), Ok(()));
    let claimant = addr(60);

    assert!(is_genetic_kin_required(&world.env, plan_id, 0));
    assert!(!has_verified_genetic_proof(&world.env, plan_id, &claimant));

    let commitment = genetic_proof_commitment(plan_id, &claimant);
    world.verifier.set_expected(commitment);
    assert_eq!(world.claim(&claimant, plan_id, b"proof", vec![commitment]), Ok(()));
    assert!(has_verified_genetic_proof(&world.env, plan_id, &claimant));
    assert!(is_genetic_kin_required(&world.env, plan_id, 0));
}

#[test]
fn a_proof_for_one_plan_is_not_replayed_on_another() {
    let mut world = setup();
    world.set_verifier();
    let first = world.create_plan(10_000);
    let second = world.create_plan(10_000);
    let claimant = addr(60);
    let commitment = genetic_proof_commitment(first, &claimant);
    world.verifier.set_expected(commitment);

    // The verifier would accept these inputs for either claim.
    assert!(world.verify_proof(b"proof", vec![commitment]));
    assert_eq!(
        world.claim(&claimant, second, b"proof", vec![commitment]),
        Err(InheritanceError::ZkProofRequired)
    );
    assert_eq!(
        world.claim(&addr(61), first, b"proof", vec![commitment]),
        Err(InheritanceError::ZkProofRequired)
    );
    assert!(!has_verified_genetic_proof(&world.env, second, &claimant));
    assert!(!has_verified_genetic_proof(&world.env, first, &addr(61)));

    // Where among the inputs the commitment stands is up to the circuit.
    let second_commitment = genetic_proof_commitment(second, &claimant);
    assert_eq!(
        world.claim(&claimant, second, b"proof", vec![commitment, [7; 32], second_commitment]),
        Ok(())
    );
    assert!(has_verified_genetic_proof(&world.env, second, &claimant));
}

#[test]
fn a_claim_without_its_commitment_is_refused_on_any_reply() {
    let mut world = setup();
    world.set_verifier();
    let plan_id = world.create_plan(10_000);
    let claimant = addr(60);
    let commitment = genetic_proof_commitment(plan_id, &claimant);
    world.env.authorize(&claimant);

    let call = genetic_kin_claim_invocation(
        &mut world.env,
        &claimant,
        plan_id,
        b"proof".to_vec(),
        vec![commitment],
    );
    assert!(call.is_ok());
    let reply: Result<Result<bool, ()>, ()> = Ok(Ok(true));
    assert_eq!(
        verify_genetic_kin_claim(&mut world.env, &claimant, plan_id, &vec![[0; 32]], reply),
        Err(InheritanceError::ZkProofRequired)
    );
    assert!(!has_verified_genetic_proof(&world.env, plan_id, &claimant));
    assert!(world.env.events.is_empty());
}

#[test]
fn proof_verification_rejects_a_closed_plan() {
    let mut world = setup();
    world.set_verifier();
    let claimant = addr(60);
    let commitment = genetic_proof_commitment(1, &claimant);
    world.verifier.set_expected(commitment);

    let plan_id = world.create_plan(10_000);
    world.deactivate(plan_id);

    assert_eq!(
        world.claim(&claimant, plan_id, b"proof", vec![commitment]),
        Err(InheritanceError::PlanNotActive)
    );
}

#[test]
fn proof_verification_rejects_a_nonexistent_plan() {
    let mut world = setup();
    world.set_verifier();
    let claimant = addr(60);

    assert_eq!(
        world.claim(&claimant, 999, b"proof", Vec::new()),
        Err(InheritanceError::PlanNotFound)
    );
}

#[test]
fn set_zk_verifier_is_admin_only() {
    let mut world = setup();
    let stranger = addr(9);
    world.env.authorize(&stranger);
    let result = set_zk_verifier(&mut world.env, &stranger, &addr(50));
    assert!(result.is_err());
    assert!(get_zk_verifier(&world.env).is_none());

    let admin = world.admin;
    world.env.instance.admin = None;
    world.env.authorize(&admin);
    let result = set_zk_verifier(&mut world.env, &admin, &addr(50));
    assert_eq!(result, Err(InheritanceError::Unauthorized));
}

#[test]
fn an_admin_who_has_not_authorized_sets_no_verifier() {
    let mut world = setup();
    let admin = world.admin;
    let result = set_zk_verifier(&mut world.env, &admin, &addr(50));
    assert_eq!(result, Err(InheritanceError::Unauthorized));
    assert!(get_zk_verifier(&world.env).is_none());

    world.env.authorize(&admin);
    assert_eq!(set_zk_verifier(&mut world.env, &admin, &addr(50)), Ok(()));
    assert_eq!(set_zk_verifier(&mut world.env, &admin, &addr(51)), Ok(()));
    assert_eq!(get_zk_verifier(&world.env), Some(addr(51)));
}

#[test]
fn the_sweep_releases_a_proof_requirement() {
    let mut world = setup();
    let owner = world.owner;
    let plan_id = world.create_plan(10_000);
    assert_eq!(world.require_proof(&owner, plan_id, 0, true), Ok(()));
    let before = plan_storage_footprint(&world.env, plan_id);
    world.deactivate(plan_id);
    world.withdraw(plan_id, 9800);
    assert_eq!(world.cleanup(&owner, plan_id), Ok(()));
    assert!(!is_genetic_kin_required(&world.env, plan_id, 0));
    match world.env.events[0] {
        Event::PlanStorageCleaned(event) => assert_eq!(event.entries_released, before),
        _ => panic!("unexpected event"),
    }
}

#[test]
fn the_sweep_releases_the_proof_records() {
    let mut world = setup();
    world.set_verifier();
    let owner = world.owner;
    let plan_id = world.create_plan(10_000);
    let kept = world.create_plan(10_000);
    let first = addr(60);
    let second = ordered_account();
    let bare = plan_storage_footprint(&world.env, plan_id);

    for (claimant, plan) in [(first, plan_id), (second, plan_id), (first, plan_id), (first, kept)] {
        let commitment = genetic_proof_commitment(plan, &claimant);
        world.verifier.set_expected(commitment);
        assert_eq!(world.claim(&claimant, plan, b"proof", vec![commitment]), Ok(()));
    }
    // A claimant who claims twice is listed once.
    let listed = world.env.persistent.records.read_claimants(&claimants_key(plan_id));
    assert_eq!(listed, vec![first, second]);
    // Two proof records and the list.
    assert_eq!(plan_storage_footprint(&world.env, plan_id), bare + 3);
    let footprint_kept = plan_storage_footprint(&world.env, kept);

    world.deactivate(plan_id);
    world.withdraw(plan_id, 9800);
    assert_eq!(world.cleanup(&owner, plan_id), Ok(()));

    assert!(!has_verified_genetic_proof(&world.env, plan_id, &first));
    assert!(!has_verified_genetic_proof(&world.env, plan_id, &second));
    assert!(!world.env.persistent.records.has(&verified_proof_key(plan_id, &first)));
    assert!(!world.env.persistent.records.has(&claimants_key(plan_id)));
    match world.env.events.last() {
        Some(Event::PlanStorageCleaned(event)) => {
            assert_eq!(event.entries_released, bare + 3);
        }
        _ => panic!("unexpected event"),
    }
    // Another plan's proof of the same claimant stays.
    assert!(has_verified_genetic_proof(&world.env, kept, &first));
    assert_eq!(plan_storage_footprint(&world.env, kept), footprint_kept);
}

// ─── Addresses ────────────────────────────────────

#[test]
fn address_bytes_are_those_of_the_ledger() {
    let env = soroban_sdk::Env::default();
    for address in [addr(9), ordered_account()] {
        let bytes = address_bytes(&address);
        let ledger =
            soroban_sdk::Address::from_xdr(&env, &soroban_sdk::Bytes::from_slice(&env, &bytes))
                .unwrap();
        let again: Vec<u8> = ledger.to_xdr(&env).iter().collect();
        assert_eq!(again, bytes);
        assert_eq!(address_from_bytes(&bytes), Some(address));
    }
    assert_eq!(address_bytes(&addr(9))[..8], [0, 0, 0, 18, 0, 0, 0, 1]);
    assert_eq!(address_bytes(&ordered_account())[..13], [0, 0, 0, 18, 0, 0, 0, 0, 0, 0, 0, 0, 0]);
}

#[test]
fn other_bytes_are_no_address() {
    let bytes = address_bytes(&addr(9));
    assert_eq!(address_from_bytes(&Vec::new()), None);
    assert_eq!(address_from_bytes(&bytes[..39].to_vec()), None);
    let mut other = bytes.clone();
    other[3] = 17;
    assert_eq!(address_from_bytes(&other), None);
    let mut other = bytes.clone();
    other[7] = 0;
    assert_eq!(address_from_bytes(&other), None);
}

#[test]
fn field_splits_and_tags_have_keys_of_their_own() {
    let joined = vec![b"ab".to_vec(), b"c".to_vec()];
    let split = vec![b"a".to_vec(), b"bc".to_vec()];
    assert_eq!(zk_key(1, &joined), zk_key(1, &joined.clone()));
    assert_ne!(zk_key(1, &joined), zk_key(1, &split));
    assert_ne!(zk_key(1, &joined), zk_key(2, &joined));

    // The longest pre-image: the domain, the tag, a length, and the field.
    let longest = vec![vec![7u8; MAX_PREIMAGE - 17]];
    let mut shorter = longest.clone();
    shorter[0].pop();
    assert_ne!(zk_key(1, &longest), zk_key(1, &shorter));
}

// ─── Exact digests ────────────────────────────────

const COMMIT_CONTRACT: [u8; 32] = [
    0xf5, 0x30, 0x6b, 0xec, 0xde, 0xdf, 0x0d, 0xd8,
    0x23, 0x2b, 0x4c, 0x22, 0xc6, 0x3c, 0x8b, 0xf8,
    0x25, 0x77, 0xbc, 0xb9, 0x9b, 0xf5, 0xe8, 0xfe,
    0x85, 0xb6, 0x58, 0x9a, 0x9b, 0x35, 0xb3, 0x27,
];

const COMMIT_ACCOUNT: [u8; 32] = [
    0x57, 0x70, 0xaa, 0xbc, 0x5d, 0x53, 0xb5, 0x1f,
    0x9b, 0x5f, 0xe2, 0x27, 0xf6, 0x5f, 0xbc, 0x5f,
    0xc8, 0xa1, 0xb5, 0x59, 0xd2, 0x32, 0xc9, 0x42,
    0x91, 0x0f, 0x2c, 0x88, 0x7d, 0xfc, 0xa3, 0x10,
];

const VERIFIER: [u8; 32] = [
    0x71, 0xf4, 0x65, 0xf6, 0x6e, 0x1e, 0xa3, 0x9b,
    0x59, 0x1a, 0x88, 0x10, 0x41, 0xd1, 0x5b, 0x06,
    0xd8, 0xa8, 0xaf, 0x08, 0xf4, 0x04, 0x89, 0x5d,
    0xf3, 0xc4, 0x06, 0xe2, 0xc2, 0xe7, 0xfb, 0xdf,
];

const REQUIREMENT: [u8; 32] = [
    0x25, 0x16, 0x70, 0x65, 0xa0, 0x50, 0x62, 0xa6,
    0x6d, 0x0e, 0x97, 0x7f, 0x02, 0xd8, 0xc2, 0x80,
    0x88, 0xff, 0x96, 0xce, 0x3d, 0x9e, 0x8d, 0xff,
    0x75, 0x27, 0xb6, 0xfa, 0xd9, 0x91, 0x3c, 0xb7,
];

const PROOF: [u8; 32] = [
    0xf6, 0xd1, 0x16, 0x5a, 0xe9, 0x69, 0x01, 0xfc,
    0x86, 0x8b, 0x15, 0xc2, 0x16, 0x23, 0xc8, 0x3e,
    0x37, 0x16, 0xb8, 0x4c, 0x31, 0x57, 0x3b, 0xf9,
    0x60, 0xdd, 0xb5, 0x4c, 0xb6, 0x2d, 0xcb, 0xf8,
];

const CLAIMANTS: [u8; 32] = [
    0xf5, 0x3a, 0xae, 0xca, 0x9a, 0x12, 0x72, 0xc4,
    0x34, 0x10, 0xc7, 0xc3, 0x2e, 0xee, 0xa3, 0x88,
    0xc8, 0x37, 0xf2, 0xb5, 0x88, 0xa0, 0x9d, 0x0a,
    0x30, 0xb3, 0x7f, 0x7c, 0x52, 0xe5, 0x2b, 0x75,
];

fn ordered_account() -> Address {
    let mut key = [0u8; 32];
    for i in 0..32 {
        key[i] = i as u8;
    }
    Address::Account(key)
}

#[test]
fn commitments_are_exact() {
    assert_eq!(genetic_proof_commitment(7, &addr(9)), COMMIT_CONTRACT);
    assert_eq!(
        genetic_proof_commitment(0x0102_0304_0506_0708, &ordered_account()),
        COMMIT_ACCOUNT
    );
}

#[test]
fn record_keys_are_exact() {
    assert_eq!(verifier_key(), DataKey::Zk(VERIFIER));
    assert_eq!(claimants_key(7), DataKey::Zk(CLAIMANTS));
    assert_eq!(genetic_kin_key(7, 3), DataKey::Zk(REQUIREMENT));
    assert_eq!(verified_proof_key(7, &ordered_account()), DataKey::Zk(PROOF));
}
