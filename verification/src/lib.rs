//! Transactional state-management core of a deterministic ledger execution
//! engine: a lock-managing overlay ("track") over a pluggable substate store,
//! a keyed-collection overlay, finalization into a persistable state diff,
//! fee settlement, and balance-change accounting.

pub mod accounting;
pub mod addressing;
pub mod auth;
pub mod collections;
pub mod decimal;
pub mod decoder;
pub mod diff;
pub mod errors;
pub mod fees;
pub mod finalization;
pub mod fingerprint;
pub mod id_allocator;
pub mod invocations;
pub mod proofs;
pub mod receipt;
pub mod resources;
pub mod store;
pub mod substates;
pub mod track;
