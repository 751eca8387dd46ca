//! The error taxonomy: everything that can go wrong inside a transaction is
//! funnelled into one `RuntimeError`, and the result classifier reads it to
//! decide between commit, reject and abort.

use vstd::prelude::*;
use crate::addressing::{ObjectId, PackageAddress, RENodeId, SubstateOffset};
use crate::auth::AuthError;
use crate::decoder::DecodeError;
use crate::fees::{CostingError, FeeReserveError};
use crate::proofs::ProofError;
use crate::receipt::AbortReason;
use crate::resources::ResourceError;
use crate::track::TrackError;

verus! {

/// An error raised while allocating entity identifiers.
#[derive(Debug, Clone, PartialEq, Eq)]
pub enum IdAllocationError {
    RENodeIdWasNotAllocated(RENodeId),
    AllocatedIDsNotEmpty(Vec<RENodeId>),
    OutOfID,
}

/// An error of the transaction processor itself; the epoch-validity variants
/// make the whole transaction a rejection, never a commit.
#[derive(Debug, Clone, Copy, PartialEq, Eq, Structural, Hash)]
pub enum TransactionProcessorError {
    TransactionEpochNotYetValid { valid_from: u64, current_epoch: u64 },
    TransactionEpochNoLongerValid { valid_until: u64, current_epoch: u64 },
    BlobNotFound(u64),
    InvalidCallData,
}

/// An error raised inside the kernel.
#[derive(Debug, Clone, PartialEq, Eq)]
pub enum KernelError {
    RENodeNotFound(RENodeId),
    InvalidDirectAccess,
    IdAllocationError(IdAllocationError),
    SborDecodeError(DecodeError),
    ContainsDuplicatedOwns,
    StoredNodeRemoved(RENodeId),
    TrackError(Box<TrackError>),
    LockDoesNotExist(u32),
    LockNotMutable(u32),
    DropNodeFailure(RENodeId),
    InvalidOffset(SubstateOffset),
    InvalidOwnership(Box<InvalidOwnership>),
    InvalidId(RENodeId),
    InvalidDropNodeAccess(Box<InvalidDropNodeAccess>),
    InvalidSubstateAccess(Box<InvalidSubstateAccess>),
}

/// A substate held an ownership edge it may not hold.
#[derive(Debug, Clone, PartialEq, Eq)]
pub struct InvalidOwnership(pub SubstateOffset, pub PackageAddress);

/// A call frame dropped a node it may not drop.
#[derive(Debug, Clone, Copy, PartialEq, Eq, Structural, Hash)]
pub struct InvalidDropNodeAccess {
    pub node_id: RENodeId,
    pub package_address: PackageAddress,
}

/// A call frame touched a substate it may not touch.
#[derive(Debug, Clone, PartialEq, Eq)]
pub struct InvalidSubstateAccess {
    pub node_id: RENodeId,
    pub offset: SubstateOffset,
}

/// An error raised by call-frame bookkeeping.
#[derive(Debug, Clone, PartialEq, Eq)]
pub enum CallFrameError {
    OffsetDoesNotExist(Box<OffsetDoesNotExist>),
    RENodeNotVisible(RENodeId),
    RENodeNotOwned(RENodeId),
    MovingLockedRENode(RENodeId),
    FailedToMoveSubstateToTrack(Box<TrackError>),
}

/// A node has no substate at the requested offset.
#[derive(Debug, Clone, PartialEq, Eq)]
pub struct OffsetDoesNotExist(pub RENodeId, pub SubstateOffset);

/// An error raised by the system layer.
#[derive(Debug, Clone, PartialEq, Eq)]
pub enum SystemError {
    NotAnObject,
    NotAKeyValueStore,
    InvalidSubstateWrite,
    InvalidKeyValueStoreOwnership,
    InvalidLockFlags,
    CannotGlobalize,
    InvalidModuleSet(Box<InvalidModuleSet>),
    InvalidModule,
    InvalidModuleType(Box<InvalidModuleType>),
    SubstateValidationError(Box<SubstateValidationError>),
}

/// A substate failed validation against its blueprint.
#[derive(Debug, Clone, PartialEq, Eq)]
pub enum SubstateValidationError {
    BlueprintNotFound,
    WrongNumberOfSubstates(usize, usize),
    SchemaValidationError,
}

/// An object carried the wrong module for its type.
#[derive(Debug, Clone, Copy, PartialEq, Eq, Structural, Hash)]
pub struct InvalidModuleType {
    pub expected_package: PackageAddress,
    pub actual_package: PackageAddress,
}

/// An object was built with an invalid set of modules.
#[derive(Debug, Clone, Copy, PartialEq, Eq, Structural, Hash)]
pub struct InvalidModuleSet(pub RENodeId);

/// An error raised by an interpreter.
#[derive(Debug, Clone, PartialEq, Eq)]
pub enum InterpreterError {
    CallMethodOnKeyValueStore,
    NativeUnexpectedReceiver(u64),
    NativeExpectedReceiver(u64),
    NativeExportDoesNotExist(u64),
    NativeInvalidCodeId(u8),
    ScryptoBlueprintNotFound(PackageAddress),
    ScryptoInputDecodeError(DecodeError),
    ScryptoOutputDecodeError(DecodeError),
}

/// An error raised by a kernel module.
#[derive(Debug, Clone, Copy, PartialEq, Eq, Structural, Hash)]
pub enum ModuleError {
    AuthError(AuthError),
    CostingError(CostingError),
}

/// An error raised by application logic.
#[derive(Debug, Clone, Copy, PartialEq, Eq, Structural, Hash)]
pub enum ApplicationError {
    TransactionProcessorError(TransactionProcessorError),
    ResourceManagerError(ResourceError),
    BucketError(ResourceError),
    ProofError(ProofError),
    VaultError(VaultError),
    WorktopError(ResourceError),
    AuthZoneError(ProofError),
}

/// An error raised by a vault operation.
#[derive(Debug, Clone, Copy, PartialEq, Eq, Structural, Hash)]
pub enum VaultError {
    InvalidRequestData,
    ResourceOperationError(ResourceError),
    CouldNotCreateBucket,
    CouldNotTakeBucket,
    ProofError(ProofError),
    CouldNotCreateProof,
    LockFeeNotRadixToken,
    LockFeeInsufficientBalance,
    LockFeeRepayFailure(FeeReserveError),
}

/// An error when executing a transaction.
#[derive(Debug, Clone, PartialEq, Eq)]
pub enum RuntimeError {
    /// An error occurred within the kernel.
    KernelError(KernelError),
    /// An error occurred within call-frame bookkeeping.
    CallFrameError(CallFrameError),
    /// An error occurred within the system layer.
    SystemError(SystemError),
    /// An error occurred within an interpreter.
    InterpreterError(InterpreterError),
    /// An error occurred within a kernel module.
    ModuleError(ModuleError),
    /// An error occurred within application logic.
    ApplicationError(ApplicationError),
}

/// An error that makes the whole transaction a rejection: the store must
/// stay exactly as if the transaction was never submitted.
#[derive(Debug, Clone, PartialEq, Eq)]
pub enum RejectionError {
    SuccessButFeeLoanNotRepaid,
    ErrorBeforeFeeLoanRepaid(RuntimeError),
    TransactionEpochNotYetValid { valid_from: u64, current_epoch: u64 },
    TransactionEpochNoLongerValid { valid_until: u64, current_epoch: u64 },
}

/// An error that may carry an explicit abort marker.
pub trait CanBeAbortion {
    /// The abort marker this error carries, if any.
    spec fn spec_abortion(&self) -> Option<AbortReason>;

    /// Reads the abort marker this error carries, if any.
    fn abortion(&self) -> (r: Option<AbortReason>)
        ensures
            r == self.spec_abortion(),
    ;
}

impl CanBeAbortion for FeeReserveError {
    open spec fn spec_abortion(&self) -> Option<AbortReason> {
        match *self {
            FeeReserveError::Abort(reason) => Some(reason),
            _ => None,
        }
    }

    fn abortion(&self) -> (r: Option<AbortReason>) {
        match self {
            FeeReserveError::Abort(reason) => Some(*reason),
            _ => None,
        }
    }
}

impl CanBeAbortion for CostingError {
    open spec fn spec_abortion(&self) -> Option<AbortReason> {
        match *self {
            CostingError::FeeReserveError(err) => err.spec_abortion(),
        }
    }

    fn abortion(&self) -> (r: Option<AbortReason>) {
        match self {
            CostingError::FeeReserveError(err) => err.abortion(),
        }
    }
}

impl CanBeAbortion for ModuleError {
    open spec fn spec_abortion(&self) -> Option<AbortReason> {
        match *self {
            ModuleError::CostingError(err) => err.spec_abortion(),
            _ => None,
        }
    }

    fn abortion(&self) -> (r: Option<AbortReason>) {
        match self {
            ModuleError::CostingError(err) => err.abortion(),
            _ => None,
        }
    }
}

impl CanBeAbortion for RuntimeError {
    open spec fn spec_abortion(&self) -> Option<AbortReason> {
        match *self {
            RuntimeError::ModuleError(err) => err.spec_abortion(),
            _ => None,
        }
    }

    fn abortion(&self) -> (r: Option<AbortReason>) {
        match self {
            RuntimeError::ModuleError(err) => err.abortion(),
            _ => None,
        }
    }
}

/// The non-downstream half of an [`InvokeError`]: an error an engine module
/// raises about itself, which can always be widened to a `RuntimeError`.
pub trait SelfError {
    /// Widens this error into the uniform runtime error.
    fn into_runtime_error(self) -> RuntimeError;
}

impl SelfError for VaultError {
    fn into_runtime_error(self) -> (r: RuntimeError)
        ensures
            r == RuntimeError::ApplicationError(ApplicationError::VaultError(self)),
    {
        RuntimeError::ApplicationError(ApplicationError::VaultError(self))
    }
}

impl SelfError for ProofError {
    fn into_runtime_error(self) -> (r: RuntimeError)
        ensures
            r == RuntimeError::ApplicationError(ApplicationError::ProofError(self)),
    {
        RuntimeError::ApplicationError(ApplicationError::ProofError(self))
    }
}

/// An error of one engine module: its own kind, or one from further down.
#[derive(Debug, Clone, PartialEq, Eq)]
pub enum InvokeError<E> {
    SelfError(E),
    Downstream(RuntimeError),
}

impl<E> InvokeError<E> {
    /// Wraps a module's own error.
    pub fn error(error: E) -> (r: Self)
        ensures
            r == InvokeError::<E>::SelfError(error),
    {
        InvokeError::SelfError(error)
    }

    /// Wraps an error from further down.
    pub fn downstream(runtime_error: RuntimeError) -> (r: Self)
        ensures
            r == InvokeError::<E>::Downstream(runtime_error),
    {
        InvokeError::Downstream(runtime_error)
    }
}

} // verus!
