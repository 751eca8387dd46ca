//! The identifiers of the engine's native functions and methods: the closed
//! vocabulary callers use to address built-in behaviour.

use vstd::prelude::*;
use crate::addressing::RENodeId;

verus! {

/// A native function named by blueprint and function.
#[derive(Debug, Clone, PartialEq, Eq)]
pub struct NativeFunctionIdent {
    pub blueprint_name: Vec<u8>,
    pub function_name: Vec<u8>,
}

/// A native method named by receiver and method.
#[derive(Debug, Clone, PartialEq, Eq)]
pub struct NativeMethodIdent {
    pub receiver: RENodeId,
    pub method_name: Vec<u8>,
}

/// A native callable: a method on a receiver, or a free function.
#[derive(Debug, Clone, Copy, PartialEq, Eq, Structural, Hash)]
pub enum NativeFn {
    Method(NativeMethod),
    Function(NativeFunction),
}

/// The native methods, by module.
#[derive(Debug, Clone, Copy, PartialEq, Eq, Structural, Hash)]
pub enum NativeMethod {
    AccessRulesChain(AccessRulesChainMethod),
    Component(ComponentMethod),
    Package(PackageMethod),
    Metadata(MetadataMethod),
    EpochManager(EpochManagerMethod),
    AuthZoneStack(AuthZoneStackMethod),
    ResourceManager(ResourceManagerMethod),
    Bucket(BucketMethod),
    Vault(VaultMethod),
    Proof(ProofMethod),
    Worktop(WorktopMethod),
    Logger(LoggerMethod),
    Clock(ClockMethod),
    TransactionHash(TransactionHashMethod),
}

/// The native free functions, by module.
#[derive(Debug, Clone, Copy, PartialEq, Eq, Structural, Hash)]
pub enum NativeFunction {
    Component(ComponentFunction),
    EpochManager(EpochManagerFunction),
    ResourceManager(ResourceManagerFunction),
    Package(PackageFunction),
    TransactionProcessor(TransactionProcessorFunction),
    Clock(ClockFunction),
}

/// Methods of an access-rules chain.
#[derive(Debug, Clone, Copy, PartialEq, Eq, Structural, Hash)]
pub enum AccessRulesChainMethod {
    AddAccessCheck,
    SetMethodAccessRule,
    SetGroupAccessRule,
    SetMethodMutability,
    SetGroupMutability,
    GetLength,
}

/// Methods of the metadata module.
#[derive(Debug, Clone, Copy, PartialEq, Eq, Structural, Hash)]
pub enum MetadataMethod {
    SetEntry,
    GetEntry,
}

/// Functions of the component module.
#[derive(Debug, Clone, Copy, PartialEq, Eq, Structural, Hash)]
pub enum ComponentFunction {
    Globalize,
    GlobalizeWithOwner,
}

/// Functions of the epoch manager.
#[derive(Debug, Clone, Copy, PartialEq, Eq, Structural, Hash)]
pub enum EpochManagerFunction {
    Create,
}

/// Methods of a component.
#[derive(Debug, Clone, Copy, PartialEq, Eq, Structural, Hash)]
pub enum ComponentMethod {
    SetRoyaltyConfig,
    ClaimRoyalty,
}

/// Methods of a package.
#[derive(Debug, Clone, Copy, PartialEq, Eq, Structural, Hash)]
pub enum PackageMethod {
    SetRoyaltyConfig,
    ClaimRoyalty,
}

/// Methods of the epoch manager.
#[derive(Debug, Clone, Copy, PartialEq, Eq, Structural, Hash)]
pub enum EpochManagerMethod {
    GetCurrentEpoch,
    NextRound,
    SetEpoch,
}

/// Methods of the auth-zone stack.
#[derive(Debug, Clone, Copy, PartialEq, Eq, Structural, Hash)]
pub enum AuthZoneStackMethod {
    Pop,
    Push,
    CreateProof,
    CreateProofByAmount,
    CreateProofByIds,
    Clear,
    Drain,
    AssertAccessRule,
}

/// Functions of a resource manager.
#[derive(Debug, Clone, Copy, PartialEq, Eq, Structural, Hash)]
pub enum ResourceManagerFunction {
    Create,
    BurnBucket,
}

/// Methods of a resource manager.
#[derive(Debug, Clone, Copy, PartialEq, Eq, Structural, Hash)]
pub enum ResourceManagerMethod {
    Mint,
    Burn,
    UpdateVaultAuth,
    LockAuth,
    UpdateNonFungibleData,
    GetNonFungible,
    GetResourceType,
    GetTotalSupply,
    NonFungibleExists,
    CreateBucket,
    CreateVault,
}

/// Methods of a bucket.
#[derive(Debug, Clone, Copy, PartialEq, Eq, Structural, Hash)]
pub enum BucketMethod {
    Take,
    TakeNonFungibles,
    Put,
    GetNonFungibleIds,
    GetAmount,
    GetResourceAddress,
    CreateProof,
}

/// Methods of a vault.
#[derive(Debug, Clone, Copy, PartialEq, Eq, Structural, Hash)]
pub enum VaultMethod {
    Take,
    LockFee,
    Put,
    TakeNonFungibles,
    GetAmount,
    GetResourceAddress,
    GetNonFungibleIds,
    CreateProof,
    CreateProofByAmount,
    CreateProofByIds,
    Recall,
    RecallNonFungibles,
}

/// Methods of a proof.
#[derive(Debug, Clone, Copy, PartialEq, Eq, Structural, Hash)]
pub enum ProofMethod {
    GetAmount,
    GetNonFungibleIds,
    GetResourceAddress,
}

/// Methods of the worktop.
#[derive(Debug, Clone, Copy, PartialEq, Eq, Structural, Hash)]
pub enum WorktopMethod {
    TakeAll,
    TakeAmount,
    TakeNonFungibles,
    Put,
    AssertContains,
    AssertContainsAmount,
    AssertContainsNonFungibles,
    Drain,
}

/// Methods of the logger.
#[derive(Debug, Clone, Copy, PartialEq, Eq, Structural, Hash)]
pub enum LoggerMethod {
    Log,
}

/// Functions of the clock.
#[derive(Debug, Clone, Copy, PartialEq, Eq, Structural, Hash)]
pub enum ClockFunction {
    Create,
}

/// Methods of the clock.
#[derive(Debug, Clone, Copy, PartialEq, Eq, Structural, Hash)]
pub enum ClockMethod {
    SetCurrentTime,
    GetCurrentTime,
    CompareCurrentTime,
}

/// Methods of the transaction-hash module.
#[derive(Debug, Clone, Copy, PartialEq, Eq, Structural, Hash)]
pub enum TransactionHashMethod {
    Get,
    GenerateUuid,
}

/// Functions of the package module.
#[derive(Debug, Clone, Copy, PartialEq, Eq, Structural, Hash)]
pub enum PackageFunction {
    Publish,
}

/// Functions of the transaction processor.
#[derive(Debug, Clone, Copy, PartialEq, Eq, Structural, Hash)]
pub enum TransactionProcessorFunction {
    Run,
}

} // verus!
