//! Transaction results: what a finished transaction reports back — a commit
//! (with its state diff and summaries), a rejection, or an abort.

use vstd::prelude::*;
use crate::addressing::{Address, ComponentAddress, ObjectId, PackageAddress, ResourceAddress};
use crate::collections::OrderedMap;
use crate::decimal::Decimal;
use crate::diff::StateDiff;
use crate::errors::{RejectionError, RuntimeError};
use crate::fees::FeeSummary;
use crate::resources::IdSet;

verus! {

/// Why a transaction was aborted rather than committed or rejected.
#[derive(Debug, Clone, Copy, PartialEq, Eq, Structural, Hash)]
pub enum AbortReason {
    ConfiguredAbortTriggeredOnFeeLoanRepayment,
}

/// What one instruction of a committed transaction returned.
#[derive(Debug, Clone, PartialEq, Eq)]
pub enum InstructionOutput {
    CallReturn(Vec<u8>),
    Empty,
}

/// Identifies the type of an emitted application event.
#[derive(Debug, Clone, Copy, PartialEq, Eq, Structural, Hash)]
pub struct EventTypeIdentifier {
    pub emitter: crate::addressing::RENodeId,
    pub local_type_index: u64,
}

/// The severity of an application log line.
#[derive(Debug, Clone, Copy, PartialEq, Eq, Structural, Hash)]
pub enum Level {
    Error,
    Warn,
    Info,
    Debug,
    Trace,
}

/// Whether the committed execution succeeded or failed.
#[derive(Debug, Clone, PartialEq, Eq)]
pub enum TransactionOutcome {
    Success(Vec<InstructionOutput>),
    Failure(RuntimeError),
}

impl TransactionOutcome {
    /// Whether this outcome is a success.
    pub fn is_success(&self) -> (r: bool)
        ensures
            r == (self is Success),
    {
        match self {
            TransactionOutcome::Success(_) => true,
            TransactionOutcome::Failure(_) => false,
        }
    }
}

/// The net movement of one resource in or out of one vault or root entity.
#[derive(Debug, Clone, PartialEq, Eq)]
pub enum BalanceChange {
    Fungible(Decimal),
    NonFungible { added: IdSet, removed: IdSet },
}

/// What a committed transaction created and how balances moved: the new
/// global addresses, the per-root balance changes, and the changes of vaults
/// never reached from any root.
pub struct StateUpdateSummary {
    pub new_packages: Vec<PackageAddress>,
    pub new_components: Vec<ComponentAddress>,
    pub new_resources: Vec<ResourceAddress>,
    pub balance_changes: OrderedMap<Address, OrderedMap<ResourceAddress, BalanceChange>>,
    pub direct_vault_updates: OrderedMap<ObjectId, OrderedMap<ResourceAddress, BalanceChange>>,
}

/// Everything a committed transaction leaves behind.
pub struct CommitResult {
    /// The substate changes to persist.
    pub state_updates: StateDiff,
    /// New addresses and balance changes.
    pub state_update_summary: StateUpdateSummary,
    /// Whether execution succeeded, and the outputs or the error.
    pub outcome: TransactionOutcome,
    /// The fee totals of this transaction.
    pub fee_summary: FeeSummary,
    /// What each fee vault finally paid.
    pub fee_payments: OrderedMap<ObjectId, Decimal>,
    /// Events kept only on success.
    pub application_events: Vec<(EventTypeIdentifier, Vec<u8>)>,
    /// Logs kept on success and on failure alike.
    pub application_logs: Vec<(Level, String)>,
}

/// The report of a rejected transaction: no state changed at all.
pub struct RejectResult {
    pub error: RejectionError,
}

/// The report of an aborted transaction: a fatal condition was detected.
pub struct AbortResult {
    pub reason: AbortReason,
}

/// The one result every finished transaction has.
pub enum TransactionResult {
    Commit(CommitResult),
    Reject(RejectResult),
    Abort(AbortResult),
}

} // verus!
