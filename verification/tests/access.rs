//! Roles, address lists, the reentrancy guard, the pause switch and versions.

use inheritx_access::access::{
    assign_role, blacklist_address, has_role, is_blacklisted, is_whitelisted,
    require_not_blacklisted, require_role, require_whitelisted, revoke_role, unblacklist_address,
    unwhitelist_address, whitelist_address, AccessControlKey, Role,
};
use inheritx_access::address::Address;
use inheritx_access::env::Env;
use inheritx_access::pause::{
    is_contract_paused, operation_enter_or_panic, operation_exit, pause_contract,
    require_not_paused, require_not_paused_or_panic, unpause_contract, PauseKey,
};
use inheritx_access::plan::PlanLimits;
use inheritx_access::reentrancy::{
    reentrancy_enter, reentrancy_enter_or_panic, reentrancy_exit, ReentrancyGuard, SecurityKey,
};
use inheritx_access::version::{
    assert_compatible_version, assert_compatible_version_or_panic, check_contract_version,
    get_contract_version, query_contract_version, set_contract_version, version_invocation,
    CONTRACT_VERSION, VERSION_FN,
};

#[derive(Clone, Copy, Debug, PartialEq)]
enum Refused {
    Denied,
}

fn new_env() -> Env {
    Env::new(1_000, PlanLimits { max_beneficiaries: 10, max_will_versions: 10 })
}

fn addr(n: u8) -> Address {
    Address::Account([n; 32])
}

#[test]
fn roles_are_assigned_and_revoked_one_by_one() {
    let mut env = new_env();
    assert!(!has_role(&env, &addr(1), Role::Admin));
    assign_role(&mut env, &addr(1), Role::Admin);
    assign_role(&mut env, &addr(1), Role::Guardian);
    assign_role(&mut env, &addr(2), Role::Owner);

    assert!(has_role(&env, &addr(1), Role::Admin));
    assert!(has_role(&env, &addr(1), Role::Guardian));
    assert!(!has_role(&env, &addr(1), Role::Owner));
    assert!(!has_role(&env, &addr(2), Role::Admin));

    revoke_role(&mut env, &addr(1), Role::Admin);
    assert!(!has_role(&env, &addr(1), Role::Admin));
    assert!(has_role(&env, &addr(1), Role::Guardian));
    assert!(has_role(&env, &addr(2), Role::Owner));
    // The lock that the revocation ran under is free again.
    assert!(!env.temporary.locks.has(&SecurityKey::ReentrancyLock));
}

#[test]
fn role_changes_are_idempotent() {
    let mut env = new_env();
    let key = AccessControlKey::Roles(addr(1));
    assign_role(&mut env, &addr(1), Role::Beneficiary);
    assign_role(&mut env, &addr(1), Role::Owner);
    assign_role(&mut env, &addr(1), Role::Beneficiary);
    assert_eq!(
        env.persistent.role_lists.get(&key).unwrap(),
        &vec![Role::Beneficiary, Role::Owner]
    );
    revoke_role(&mut env, &addr(1), Role::Admin);
    assert_eq!(
        env.persistent.role_lists.get(&key).unwrap(),
        &vec![Role::Beneficiary, Role::Owner]
    );
    revoke_role(&mut env, &addr(1), Role::Beneficiary);
    revoke_role(&mut env, &addr(1), Role::Beneficiary);
    assert_eq!(env.persistent.role_lists.get(&key).unwrap(), &vec![Role::Owner]);
}

#[test]
fn revoking_a_role_from_an_address_without_a_list_leaves_no_entry() {
    let mut env = new_env();
    revoke_role(&mut env, &addr(1), Role::Admin);
    assert!(!env.persistent.role_lists.has(&AccessControlKey::Roles(addr(1))));
    assert!(!env.temporary.locks.has(&SecurityKey::ReentrancyLock));
}

#[test]
fn a_required_role_is_demanded_with_the_callers_error() {
    let mut env = new_env();
    assert_eq!(
        require_role(&env, &addr(1), Role::Admin, Refused::Denied),
        Err(Refused::Denied)
    );
    assign_role(&mut env, &addr(1), Role::Admin);
    assert_eq!(require_role(&env, &addr(1), Role::Admin, Refused::Denied), Ok(()));
}

#[test]
fn the_blacklist_and_the_whitelist_are_separate() {
    let mut env = new_env();
    blacklist_address(&mut env, &addr(1));
    assert!(is_blacklisted(&env, &addr(1)));
    assert!(!is_whitelisted(&env, &addr(1)));
    assert!(!is_blacklisted(&env, &addr(2)));
    assert_eq!(
        require_not_blacklisted(&env, &addr(1), Refused::Denied),
        Err(Refused::Denied)
    );
    assert_eq!(require_not_blacklisted(&env, &addr(2), Refused::Denied), Ok(()));

    whitelist_address(&mut env, &addr(2));
    assert!(is_whitelisted(&env, &addr(2)));
    assert!(!is_blacklisted(&env, &addr(2)));
    assert_eq!(require_whitelisted(&env, &addr(2), Refused::Denied), Ok(()));
    assert_eq!(
        require_whitelisted(&env, &addr(1), Refused::Denied),
        Err(Refused::Denied)
    );

    unblacklist_address(&mut env, &addr(1));
    unwhitelist_address(&mut env, &addr(2));
    assert!(!is_blacklisted(&env, &addr(1)));
    assert!(!is_whitelisted(&env, &addr(2)));
}

#[test]
fn the_reentrancy_lock_is_exclusive() {
    let mut env = new_env();
    assert_eq!(reentrancy_enter(&mut env, Refused::Denied), Ok(()));
    assert_eq!(reentrancy_enter(&mut env, Refused::Denied), Err(Refused::Denied));
    reentrancy_exit(&mut env);
    reentrancy_enter_or_panic(&mut env);
    assert_eq!(reentrancy_enter(&mut env, Refused::Denied), Err(Refused::Denied));
    reentrancy_exit(&mut env);
    // Clearing a free lock does nothing.
    reentrancy_exit(&mut env);
    assert_eq!(reentrancy_enter(&mut env, Refused::Denied), Ok(()));
}

#[test]
fn a_guard_holds_the_lock_until_it_is_released() {
    let mut env = new_env();
    let guard = ReentrancyGuard::lock(&mut env, Refused::Denied).unwrap();
    assert_eq!(
        ReentrancyGuard::lock(&mut env, Refused::Denied).unwrap_err(),
        Refused::Denied
    );
    guard.release(&mut env);
    let guard = ReentrancyGuard::lock_or_panic(&mut env);
    assert!(env.temporary.locks.has(&SecurityKey::ReentrancyLock));
    guard.release(&mut env);
    assert!(!env.temporary.locks.has(&SecurityKey::ReentrancyLock));
}

#[test]
fn a_paused_contract_refuses_operations() {
    let mut env = new_env();
    assert!(!is_contract_paused(&env));
    assert_eq!(require_not_paused(&env, Refused::Denied), Ok(()));
    require_not_paused_or_panic(&env);
    pause_contract(&mut env);
    assert!(is_contract_paused(&env));
    assert!(!env.instance.pause_flags.has(&PauseKey::PauseLock));
    assert_eq!(require_not_paused(&env, Refused::Denied), Err(Refused::Denied));
    unpause_contract(&mut env);
    assert!(!is_contract_paused(&env));
    assert_eq!(require_not_paused(&env, Refused::Denied), Ok(()));
}

#[test]
fn a_pause_in_progress_counts_as_paused() {
    let mut env = new_env();
    env.instance.pause_flags.set(&PauseKey::PauseLock, true);
    assert!(!is_contract_paused(&env));
    assert_eq!(require_not_paused(&env, Refused::Denied), Err(Refused::Denied));
}

#[test]
fn operations_are_counted_in_and_out() {
    let mut env = new_env();
    operation_enter_or_panic(&mut env);
    operation_enter_or_panic(&mut env);
    assert_eq!(env.instance.operation_counts.get(&PauseKey::ActiveOps), Some(&2));
    operation_exit(&mut env);
    assert_eq!(env.instance.operation_counts.get(&PauseKey::ActiveOps), Some(&1));
    operation_exit(&mut env);
    assert_eq!(env.instance.operation_counts.get(&PauseKey::ActiveOps), None);
    // Safe even if the count is missing.
    operation_exit(&mut env);
    assert_eq!(env.instance.operation_counts.get(&PauseKey::ActiveOps), None);
    pause_contract(&mut env);
    assert!(is_contract_paused(&env));
}

#[test]
fn the_version_defaults_to_one() {
    let mut env = new_env();
    assert_eq!(get_contract_version(&env), 1);
    set_contract_version(&mut env, 4);
    assert_eq!(get_contract_version(&env), 4);
    assert_eq!(CONTRACT_VERSION, 1);
}

#[test]
fn peers_are_asked_for_their_version_by_name() {
    let call = version_invocation(&addr(3));
    assert_eq!(call.contract, addr(3));
    assert_eq!(call.function, "get_version");
    assert_eq!(VERSION_FN, "get_version");
    assert!(call.args.is_empty());
}

#[test]
fn only_a_reported_version_in_range_is_compatible() {
    let good: Result<Result<u32, ()>, ()> = Ok(Ok(3));
    let garbled: Result<Result<u32, ()>, ()> = Ok(Err(()));
    let missing: Result<Result<u32, ()>, ()> = Err(());

    assert_eq!(query_contract_version(good), Some(3));
    assert_eq!(query_contract_version(garbled), None);
    assert_eq!(query_contract_version(missing), None);

    assert_eq!(check_contract_version(good, 3, 3, Refused::Denied), Ok(()));
    assert_eq!(check_contract_version(good, 1, 5, Refused::Denied), Ok(()));
    assert_eq!(check_contract_version(good, 4, 5, Refused::Denied), Err(Refused::Denied));
    assert_eq!(check_contract_version(good, 1, 2, Refused::Denied), Err(Refused::Denied));
    assert_eq!(check_contract_version(missing, 0, 9, Refused::Denied), Err(Refused::Denied));

    assert_eq!(assert_compatible_version(good, 3, Refused::Denied), Ok(()));
    assert_eq!(assert_compatible_version(good, 2, Refused::Denied), Err(Refused::Denied));
    assert_eq!(assert_compatible_version(garbled, 3, Refused::Denied), Err(Refused::Denied));
    assert_compatible_version_or_panic(good, 3);
}
