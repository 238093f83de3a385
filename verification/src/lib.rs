//! Access control, governance and plan upkeep for inheritance contracts.
//!
//! The functions work on an [`env::Env`], which holds as plain values what a
//! contract call reads and writes. Every contract is stated over its view,
//! [`env::EnvView`].

pub mod access;
pub mod accounting;
pub mod address;
pub mod cleanup_laws;
pub mod entry_laws;
pub mod env;
pub mod genetic_proof;
pub mod governance;
pub mod invocation;
pub mod key_laws;
pub mod mock_verifier;
pub mod pause;
pub mod plan;
pub mod plan_laws;
pub mod plan_maintenance;
pub mod proof_laws;
pub mod reentrancy;
pub mod table;
pub mod version;
pub mod zk;
