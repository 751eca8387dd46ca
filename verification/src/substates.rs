//! The substate content model: a closed sum type with one variant per
//! content kind, in a persisted form (what the store holds) and a runtime
//! form (what the transaction overlay holds, including transient kinds that
//! may never be persisted).

use vstd::prelude::*;
use vstd::pervasive::unreached;
use crate::addressing::{Address, ComponentAddress, KeyValueStoreId, ObjectId, RENodeId,
    ResourceAddress, SubstateOffset, ComponentOffset, KeyValueStoreOffset};
use crate::decimal::Decimal;
use crate::errors::{KernelError, RuntimeError};
use crate::proofs::{FungibleProof, LocalRef, NonFungibleProof, ProofInfoSubstate, ResourceType};
use crate::resources::{IdSet, LiquidFungibleResource, LiquidNonFungibleResource,
    LockedFungibleResource, LockedNonFungibleResource};

verus! {

/// A piece of substate content: opaque payload bytes together with the node
/// edges the content carries — the child nodes it owns and the nodes it
/// references.
#[derive(Debug, Clone, PartialEq, Eq)]
pub struct ScryptoValue {
    /// The opaque payload bytes.
    pub raw: Vec<u8>,
    /// The child nodes this content owns.
    pub owned_nodes: Vec<RENodeId>,
    /// The nodes this content references without owning them.
    pub references: Vec<RENodeId>,
}

/// The mathematical value of a [`ScryptoValue`].
pub struct ScryptoValueAbs {
    pub raw: Seq<u8>,
    pub owned_nodes: Seq<RENodeId>,
    pub references: Seq<RENodeId>,
}

impl ScryptoValue {
    /// The mathematical value of this content.
    pub open spec fn abs(&self) -> ScryptoValueAbs {
        ScryptoValueAbs { raw: self.raw@, owned_nodes: self.owned_nodes@, references: self.references@ }
    }

    /// Content with the given payload bytes and no node edges.
    pub fn from_raw(raw: Vec<u8>) -> (r: ScryptoValue)
        ensures
            r.abs() == (ScryptoValueAbs {
                raw: raw@,
                owned_nodes: Seq::<RENodeId>::empty(),
                references: Seq::<RENodeId>::empty(),
            }),
    {
        let r = ScryptoValue { raw, owned_nodes: Vec::new(), references: Vec::new() };
        r
    }

    /// An exact copy of this content.
    pub fn duplicate(&self) -> (r: ScryptoValue)
        ensures
            r.abs() == self.abs(),
    {
        let raw = self.raw.clone();
        let owned_nodes = self.owned_nodes.clone();
        let references = self.references.clone();
        proof {
            assert(raw@ =~= self.raw@);
            assert(owned_nodes@ =~= self.owned_nodes@);
            assert(references@ =~= self.references@);
        }
        ScryptoValue { raw, owned_nodes, references }
    }
}

/// The epoch-manager state.
#[derive(Debug, Clone, Copy, PartialEq, Eq, Structural, Hash)]
pub struct EpochManagerSubstate {
    pub epoch: u64,
    pub round: u64,
}

/// The current validator set.
#[derive(Debug, Clone, Copy, PartialEq, Eq, Structural, Hash)]
pub struct ValidatorSetSubstate {
    pub epoch: u64,
    pub validator_count: u64,
}

/// One validator's state.
#[derive(Debug, Clone, Copy, PartialEq, Eq, Structural, Hash)]
pub struct ValidatorSubstate {
    pub key: u64,
    pub is_registered: bool,
}

/// The clock state.
#[derive(Debug, Clone, Copy, PartialEq, Eq, Structural, Hash)]
pub struct ClockSubstate {
    pub current_time_rounded_to_minutes_ms: u64,
}

/// A fungible resource manager's state.
#[derive(Debug, Clone, Copy, PartialEq, Eq, Structural, Hash)]
pub struct FungibleResourceManagerSubstate {
    pub resource_address: ResourceAddress,
    pub divisibility: u8,
    pub total_supply: Decimal,
}

/// The id granularity of a non-fungible resource.
#[derive(Debug, Clone, Copy, PartialEq, Eq, Structural, Hash)]
pub enum NonFungibleIdType {
    Integer,
    Bytes,
}

/// A non-fungible resource manager's state.
#[derive(Debug, Clone, Copy, PartialEq, Eq, Structural, Hash)]
pub struct NonFungibleResourceManagerSubstate {
    pub resource_address: ResourceAddress,
    pub id_type: NonFungibleIdType,
    pub total_supply: Decimal,
}

/// A component's business state.
#[derive(Debug, Clone, PartialEq, Eq)]
pub struct ComponentStateSubstate {
    pub value: ScryptoValue,
}

/// A package's schema information.
#[derive(Debug, Clone, PartialEq, Eq)]
pub struct PackageInfoSubstate {
    pub schema_raw: Vec<u8>,
}

/// The kind of code a package carries.
#[derive(Debug, Clone, Copy, PartialEq, Eq, Structural, Hash)]
pub enum PackageCodeTypeSubstate {
    Native,
    Wasm,
}

/// A package's code.
#[derive(Debug, Clone, PartialEq, Eq)]
pub struct PackageCodeSubstate {
    pub code: Vec<u8>,
}

/// A package's royalty accumulator.
#[derive(Debug, Clone, Copy, PartialEq, Eq, Structural, Hash)]
pub struct PackageRoyaltySubstate {
    pub royalty_vault: Option<ObjectId>,
}

/// A package's function access rules.
#[derive(Debug, Clone, Copy, PartialEq, Eq, Structural, Hash)]
pub struct FunctionAccessRulesSubstate {
    pub default_allow: bool,
}

/// An account's state: it owns the key-value store of its vaults.
#[derive(Debug, Clone, Copy, PartialEq, Eq, Structural, Hash)]
pub struct AccountSubstate {
    pub vaults_store: KeyValueStoreId,
}

/// An access controller's state: it owns the controlled vault.
#[derive(Debug, Clone, Copy, PartialEq, Eq, Structural, Hash)]
pub struct AccessControllerSubstate {
    pub controlled_vault: ObjectId,
    pub is_primary_role_locked: bool,
}

/// A fungible vault's divisibility.
#[derive(Debug, Clone, Copy, PartialEq, Eq, Structural, Hash)]
pub struct FungibleVaultDivisibilitySubstate {
    pub divisibility: u8,
}

/// A non-fungible vault's id granularity.
#[derive(Debug, Clone, Copy, PartialEq, Eq, Structural, Hash)]
pub struct NonFungibleVaultIdTypeSubstate {
    pub id_type: NonFungibleIdType,
}

/// The blueprints this core recognises structurally.
#[derive(Debug, Clone, Copy, PartialEq, Eq, Structural, Hash)]
pub enum BlueprintName {
    FungibleVault,
    NonFungibleVault,
    Account,
    Named(u64),
}

/// The blueprint an object was instantiated from.
#[derive(Debug, Clone, Copy, PartialEq, Eq, Structural, Hash)]
pub struct Blueprint {
    pub package_address: crate::addressing::PackageAddress,
    pub blueprint_name: BlueprintName,
}

/// What an object is: its blueprint, whether it is global, and its type
/// parent (for a vault, the resource it belongs to).
#[derive(Debug, Clone, Copy, PartialEq, Eq, Structural, Hash)]
pub struct ObjectInfo {
    pub blueprint: Blueprint,
    pub global: bool,
    pub type_parent: Option<Address>,
}

/// The type information attached to every entity.
#[derive(Debug, Clone, Copy, PartialEq, Eq, Structural, Hash)]
pub enum TypeInfoSubstate {
    Object(ObjectInfo),
    KeyValueStore,
}

/// An entity's method access rules.
#[derive(Debug, Clone, Copy, PartialEq, Eq, Structural, Hash)]
pub struct MethodAccessRulesSubstate {
    pub default_allow: bool,
}

/// A component's royalty configuration.
#[derive(Debug, Clone, Copy, PartialEq, Eq, Structural, Hash)]
pub struct ComponentRoyaltyConfigSubstate {
    pub royalty_rate: u64,
}

/// A component's royalty accumulator: it owns the royalty vault, if any.
#[derive(Debug, Clone, Copy, PartialEq, Eq, Structural, Hash)]
pub struct ComponentRoyaltyAccumulatorSubstate {
    pub royalty_vault: Option<ObjectId>,
}

/// The transient worktop of a transaction.
#[derive(Debug, Clone, PartialEq, Eq)]
pub struct WorktopSubstate {
    pub buckets: Vec<(ResourceAddress, ObjectId)>,
}

/// The transient auth-zone stack.
#[derive(Debug, Clone, Copy, PartialEq, Eq, Structural, Hash)]
pub struct AuthZoneStackSubstate {
    pub depth: u64,
}

/// The header of a bucket.
#[derive(Debug, Clone, Copy, PartialEq, Eq, Structural, Hash)]
pub struct BucketInfoSubstate {
    pub resource_address: ResourceAddress,
    pub resource_type: ResourceType,
}

/// A substate in the form the persistent store holds.
#[derive(Debug, Clone, PartialEq, Eq)]
pub enum PersistedSubstate {
    EpochManager(EpochManagerSubstate),
    ValidatorSet(ValidatorSetSubstate),
    Validator(ValidatorSubstate),
    CurrentTimeRoundedToMinutes(ClockSubstate),
    ResourceManager(FungibleResourceManagerSubstate),
    NonFungibleResourceManager(NonFungibleResourceManagerSubstate),
    ComponentState(ComponentStateSubstate),
    PackageInfo(PackageInfoSubstate),
    PackageCodeType(PackageCodeTypeSubstate),
    PackageCode(PackageCodeSubstate),
    PackageRoyalty(PackageRoyaltySubstate),
    FunctionAccessRules(FunctionAccessRulesSubstate),
    Account(AccountSubstate),
    AccessController(AccessControllerSubstate),
    FungibleVaultInfo(FungibleVaultDivisibilitySubstate),
    NonFungibleVaultInfo(NonFungibleVaultIdTypeSubstate),
    VaultLiquidFungible(LiquidFungibleResource),
    VaultLiquidNonFungible(LiquidNonFungibleResource),
    VaultLockedFungible(LockedFungibleResource),
    VaultLockedNonFungible(LockedNonFungibleResource),
    TypeInfo(TypeInfoSubstate),
    MethodAccessRules(MethodAccessRulesSubstate),
    ComponentRoyaltyConfig(ComponentRoyaltyConfigSubstate),
    ComponentRoyaltyAccumulator(ComponentRoyaltyAccumulatorSubstate),
    KeyValueStoreEntry(Option<ScryptoValue>),
    IterableEntry(ScryptoValue),
}

/// A substate in the form the transaction overlay holds: every persisted
/// kind, plus the transient kinds that only live inside one transaction.
#[derive(Debug, Clone, PartialEq, Eq)]
pub enum RuntimeSubstate {
    EpochManager(EpochManagerSubstate),
    ValidatorSet(ValidatorSetSubstate),
    Validator(ValidatorSubstate),
    CurrentTimeRoundedToMinutes(ClockSubstate),
    ResourceManager(FungibleResourceManagerSubstate),
    NonFungibleResourceManager(NonFungibleResourceManagerSubstate),
    ComponentState(ComponentStateSubstate),
    PackageInfo(PackageInfoSubstate),
    PackageCodeType(PackageCodeTypeSubstate),
    PackageCode(PackageCodeSubstate),
    PackageRoyalty(PackageRoyaltySubstate),
    FunctionAccessRules(FunctionAccessRulesSubstate),
    Account(AccountSubstate),
    AccessController(AccessControllerSubstate),
    FungibleVaultInfo(FungibleVaultDivisibilitySubstate),
    NonFungibleVaultInfo(NonFungibleVaultIdTypeSubstate),
    VaultLiquidFungible(LiquidFungibleResource),
    VaultLiquidNonFungible(LiquidNonFungibleResource),
    VaultLockedFungible(LockedFungibleResource),
    VaultLockedNonFungible(LockedNonFungibleResource),
    TypeInfo(TypeInfoSubstate),
    MethodAccessRules(MethodAccessRulesSubstate),
    ComponentRoyaltyConfig(ComponentRoyaltyConfigSubstate),
    ComponentRoyaltyAccumulator(ComponentRoyaltyAccumulatorSubstate),
    KeyValueStoreEntry(Option<ScryptoValue>),
    IterableEntry(ScryptoValue),
    Worktop(WorktopSubstate),
    AuthZone(AuthZoneStackSubstate),
    BucketInfo(BucketInfoSubstate),
    BucketLiquidFungible(LiquidFungibleResource),
    BucketLiquidNonFungible(LiquidNonFungibleResource),
    ProofInfo(ProofInfoSubstate),
    FungibleProof(FungibleProof),
    NonFungibleProof(NonFungibleProof),
}

/// The mathematical value of a fungible proof.
pub struct FungibleProofAbs {
    pub total_locked: Decimal,
    pub evidence: Seq<(LocalRef, Decimal)>,
}

/// The mathematical value of a non-fungible proof.
pub struct NonFungibleProofAbs {
    pub total_locked: Seq<u64>,
    pub evidence: Seq<(LocalRef, Seq<u64>)>,
}

/// The mathematical value of a substate's content, shared by the persisted
/// and the runtime form.
pub enum SubstateAbs {
    EpochManager(EpochManagerSubstate),
    ValidatorSet(ValidatorSetSubstate),
    Validator(ValidatorSubstate),
    CurrentTimeRoundedToMinutes(ClockSubstate),
    ResourceManager(FungibleResourceManagerSubstate),
    NonFungibleResourceManager(NonFungibleResourceManagerSubstate),
    ComponentState(ScryptoValueAbs),
    PackageInfo(Seq<u8>),
    PackageCodeType(PackageCodeTypeSubstate),
    PackageCode(Seq<u8>),
    PackageRoyalty(PackageRoyaltySubstate),
    FunctionAccessRules(FunctionAccessRulesSubstate),
    Account(AccountSubstate),
    AccessController(AccessControllerSubstate),
    FungibleVaultInfo(FungibleVaultDivisibilitySubstate),
    NonFungibleVaultInfo(NonFungibleVaultIdTypeSubstate),
    VaultLiquidFungible(LiquidFungibleResource),
    VaultLiquidNonFungible(Seq<u64>),
    VaultLockedFungible(LockedFungibleResource),
    VaultLockedNonFungible(Seq<u64>),
    TypeInfo(TypeInfoSubstate),
    MethodAccessRules(MethodAccessRulesSubstate),
    ComponentRoyaltyConfig(ComponentRoyaltyConfigSubstate),
    ComponentRoyaltyAccumulator(ComponentRoyaltyAccumulatorSubstate),
    KeyValueStoreEntry(Option<ScryptoValueAbs>),
    IterableEntry(ScryptoValueAbs),
    Worktop(Seq<(ResourceAddress, ObjectId)>),
    AuthZone(AuthZoneStackSubstate),
    BucketInfo(BucketInfoSubstate),
    BucketLiquidFungible(LiquidFungibleResource),
    BucketLiquidNonFungible(Seq<u64>),
    ProofInfo(ProofInfoSubstate),
    FungibleProof(FungibleProofAbs),
    NonFungibleProof(NonFungibleProofAbs),
}

impl PersistedSubstate {
    /// The mathematical value of this substate.
    pub open spec fn abs(&self) -> SubstateAbs {
        match *self {
            PersistedSubstate::EpochManager(v) => SubstateAbs::EpochManager(v),
            PersistedSubstate::ValidatorSet(v) => SubstateAbs::ValidatorSet(v),
            PersistedSubstate::Validator(v) => SubstateAbs::Validator(v),
            PersistedSubstate::CurrentTimeRoundedToMinutes(v) =>
                SubstateAbs::CurrentTimeRoundedToMinutes(v),
            PersistedSubstate::ResourceManager(v) => SubstateAbs::ResourceManager(v),
            PersistedSubstate::NonFungibleResourceManager(v) =>
                SubstateAbs::NonFungibleResourceManager(v),
            PersistedSubstate::ComponentState(ref v) => SubstateAbs::ComponentState(v.value.abs()),
            PersistedSubstate::PackageInfo(ref v) => SubstateAbs::PackageInfo(v.schema_raw@),
            PersistedSubstate::PackageCodeType(v) => SubstateAbs::PackageCodeType(v),
            PersistedSubstate::PackageCode(ref v) => SubstateAbs::PackageCode(v.code@),
            PersistedSubstate::PackageRoyalty(v) => SubstateAbs::PackageRoyalty(v),
            PersistedSubstate::FunctionAccessRules(v) => SubstateAbs::FunctionAccessRules(v),
            PersistedSubstate::Account(v) => SubstateAbs::Account(v),
            PersistedSubstate::AccessController(v) => SubstateAbs::AccessController(v),
            PersistedSubstate::FungibleVaultInfo(v) => SubstateAbs::FungibleVaultInfo(v),
            PersistedSubstate::NonFungibleVaultInfo(v) => SubstateAbs::NonFungibleVaultInfo(v),
            PersistedSubstate::VaultLiquidFungible(v) => SubstateAbs::VaultLiquidFungible(v),
            PersistedSubstate::VaultLiquidNonFungible(ref v) =>
                SubstateAbs::VaultLiquidNonFungible(v.ids.elems@),
            PersistedSubstate::VaultLockedFungible(v) => SubstateAbs::VaultLockedFungible(v),
            PersistedSubstate::VaultLockedNonFungible(ref v) =>
                SubstateAbs::VaultLockedNonFungible(v.ids.elems@),
            PersistedSubstate::TypeInfo(v) => SubstateAbs::TypeInfo(v),
            PersistedSubstate::MethodAccessRules(v) => SubstateAbs::MethodAccessRules(v),
            PersistedSubstate::ComponentRoyaltyConfig(v) =>
                SubstateAbs::ComponentRoyaltyConfig(v),
            PersistedSubstate::ComponentRoyaltyAccumulator(v) =>
                SubstateAbs::ComponentRoyaltyAccumulator(v),
            PersistedSubstate::KeyValueStoreEntry(ref v) => SubstateAbs::KeyValueStoreEntry(
                match *v {
                    Some(ref value) => Some(value.abs()),
                    None => None,
                },
            ),
            PersistedSubstate::IterableEntry(ref v) => SubstateAbs::IterableEntry(v.abs()),
        }
    }
}

impl RuntimeSubstate {
    /// The mathematical value of this substate.
    pub open spec fn abs(&self) -> SubstateAbs {
        match *self {
            RuntimeSubstate::EpochManager(v) => SubstateAbs::EpochManager(v),
            RuntimeSubstate::ValidatorSet(v) => SubstateAbs::ValidatorSet(v),
            RuntimeSubstate::Validator(v) => SubstateAbs::Validator(v),
            RuntimeSubstate::CurrentTimeRoundedToMinutes(v) =>
                SubstateAbs::CurrentTimeRoundedToMinutes(v),
            RuntimeSubstate::ResourceManager(v) => SubstateAbs::ResourceManager(v),
            RuntimeSubstate::NonFungibleResourceManager(v) =>
                SubstateAbs::NonFungibleResourceManager(v),
            RuntimeSubstate::ComponentState(ref v) => SubstateAbs::ComponentState(v.value.abs()),
            RuntimeSubstate::PackageInfo(ref v) => SubstateAbs::PackageInfo(v.schema_raw@),
            RuntimeSubstate::PackageCodeType(v) => SubstateAbs::PackageCodeType(v),
            RuntimeSubstate::PackageCode(ref v) => SubstateAbs::PackageCode(v.code@),
            RuntimeSubstate::PackageRoyalty(v) => SubstateAbs::PackageRoyalty(v),
            RuntimeSubstate::FunctionAccessRules(v) => SubstateAbs::FunctionAccessRules(v),
            RuntimeSubstate::Account(v) => SubstateAbs::Account(v),
            RuntimeSubstate::AccessController(v) => SubstateAbs::AccessController(v),
            RuntimeSubstate::FungibleVaultInfo(v) => SubstateAbs::FungibleVaultInfo(v),
            RuntimeSubstate::NonFungibleVaultInfo(v) => SubstateAbs::NonFungibleVaultInfo(v),
            RuntimeSubstate::VaultLiquidFungible(v) => SubstateAbs::VaultLiquidFungible(v),
            RuntimeSubstate::VaultLiquidNonFungible(ref v) =>
                SubstateAbs::VaultLiquidNonFungible(v.ids.elems@),
            RuntimeSubstate::VaultLockedFungible(v) => SubstateAbs::VaultLockedFungible(v),
            RuntimeSubstate::VaultLockedNonFungible(ref v) =>
                SubstateAbs::VaultLockedNonFungible(v.ids.elems@),
            RuntimeSubstate::TypeInfo(v) => SubstateAbs::TypeInfo(v),
            RuntimeSubstate::MethodAccessRules(v) => SubstateAbs::MethodAccessRules(v),
            RuntimeSubstate::ComponentRoyaltyConfig(v) => SubstateAbs::ComponentRoyaltyConfig(v),
            RuntimeSubstate::ComponentRoyaltyAccumulator(v) =>
                SubstateAbs::ComponentRoyaltyAccumulator(v),
            RuntimeSubstate::KeyValueStoreEntry(ref v) => SubstateAbs::KeyValueStoreEntry(
                match *v {
                    Some(ref value) => Some(value.abs()),
                    None => None,
                },
            ),
            RuntimeSubstate::IterableEntry(ref v) => SubstateAbs::IterableEntry(v.abs()),
            RuntimeSubstate::Worktop(ref v) => SubstateAbs::Worktop(v.buckets@),
            RuntimeSubstate::AuthZone(v) => SubstateAbs::AuthZone(v),
            RuntimeSubstate::BucketInfo(v) => SubstateAbs::BucketInfo(v),
            RuntimeSubstate::BucketLiquidFungible(v) => SubstateAbs::BucketLiquidFungible(v),
            RuntimeSubstate::BucketLiquidNonFungible(ref v) =>
                SubstateAbs::BucketLiquidNonFungible(v.ids.elems@),
            RuntimeSubstate::ProofInfo(v) => SubstateAbs::ProofInfo(v),
            RuntimeSubstate::FungibleProof(ref v) => SubstateAbs::FungibleProof(
                FungibleProofAbs { total_locked: v.total_locked, evidence: v.evidence@ },
            ),
            RuntimeSubstate::NonFungibleProof(ref v) => SubstateAbs::NonFungibleProof(
                NonFungibleProofAbs {
                    total_locked: v.total_locked.elems@,
                    evidence: v.evidence@.map_values(|p: (LocalRef, IdSet)| (p.0, p.1.elems@)),
                },
            ),
        }
    }

    /// Whether this substate kind may be persisted at all: the transient
    /// kinds (worktop, auth zone, buckets, proofs) may not.
    pub open spec fn is_persistable(&self) -> bool {
        persistable(self.abs())
    }
}

impl PersistedSubstate {
    /// Moves this persisted substate into the runtime form.
    pub fn to_runtime(self) -> (r: RuntimeSubstate)
        ensures
            r.abs() == self.abs(),
            r.is_persistable(),
    {
        match self {
            PersistedSubstate::EpochManager(v) => RuntimeSubstate::EpochManager(v),
            PersistedSubstate::ValidatorSet(v) => RuntimeSubstate::ValidatorSet(v),
            PersistedSubstate::Validator(v) => RuntimeSubstate::Validator(v),
            PersistedSubstate::CurrentTimeRoundedToMinutes(v) =>
                RuntimeSubstate::CurrentTimeRoundedToMinutes(v),
            PersistedSubstate::ResourceManager(v) => RuntimeSubstate::ResourceManager(v),
            PersistedSubstate::NonFungibleResourceManager(v) =>
                RuntimeSubstate::NonFungibleResourceManager(v),
            PersistedSubstate::ComponentState(v) => RuntimeSubstate::ComponentState(v),
            PersistedSubstate::PackageInfo(v) => RuntimeSubstate::PackageInfo(v),
            PersistedSubstate::PackageCodeType(v) => RuntimeSubstate::PackageCodeType(v),
            PersistedSubstate::PackageCode(v) => RuntimeSubstate::PackageCode(v),
            PersistedSubstate::PackageRoyalty(v) => RuntimeSubstate::PackageRoyalty(v),
            PersistedSubstate::FunctionAccessRules(v) => RuntimeSubstate::FunctionAccessRules(v),
            PersistedSubstate::Account(v) => RuntimeSubstate::Account(v),
            PersistedSubstate::AccessController(v) => RuntimeSubstate::AccessController(v),
            PersistedSubstate::FungibleVaultInfo(v) => RuntimeSubstate::FungibleVaultInfo(v),
            PersistedSubstate::NonFungibleVaultInfo(v) => RuntimeSubstate::NonFungibleVaultInfo(v),
            PersistedSubstate::VaultLiquidFungible(v) => RuntimeSubstate::VaultLiquidFungible(v),
            PersistedSubstate::VaultLiquidNonFungible(v) =>
                RuntimeSubstate::VaultLiquidNonFungible(v),
            PersistedSubstate::VaultLockedFungible(v) => RuntimeSubstate::VaultLockedFungible(v),
            PersistedSubstate::VaultLockedNonFungible(v) =>
                RuntimeSubstate::VaultLockedNonFungible(v),
            PersistedSubstate::TypeInfo(v) => RuntimeSubstate::TypeInfo(v),
            PersistedSubstate::MethodAccessRules(v) => RuntimeSubstate::MethodAccessRules(v),
            PersistedSubstate::ComponentRoyaltyConfig(v) =>
                RuntimeSubstate::ComponentRoyaltyConfig(v),
            PersistedSubstate::ComponentRoyaltyAccumulator(v) =>
                RuntimeSubstate::ComponentRoyaltyAccumulator(v),
            PersistedSubstate::KeyValueStoreEntry(v) => RuntimeSubstate::KeyValueStoreEntry(v),
            PersistedSubstate::IterableEntry(v) => RuntimeSubstate::IterableEntry(v),
        }
    }

    /// A borrow of the fungible-vault info content.
    pub fn fungible_vault_info(&self) -> (r: &FungibleVaultDivisibilitySubstate)
        requires
            self is FungibleVaultInfo,
        ensures
            *self == PersistedSubstate::FungibleVaultInfo(*r),
    {
        match self {
            PersistedSubstate::FungibleVaultInfo(v) => v,
            _ => unreached(),
        }
    }

    /// A borrow of the non-fungible-vault info content.
    pub fn non_fungible_vault_info(&self) -> (r: &NonFungibleVaultIdTypeSubstate)
        requires
            self is NonFungibleVaultInfo,
        ensures
            *self == PersistedSubstate::NonFungibleVaultInfo(*r),
    {
        match self {
            PersistedSubstate::NonFungibleVaultInfo(v) => v,
            _ => unreached(),
        }
    }

    /// A borrow of the liquid fungible content of a vault.
    pub fn vault_liquid_fungible(&self) -> (r: &LiquidFungibleResource)
        requires
            self is VaultLiquidFungible,
        ensures
            *self == PersistedSubstate::VaultLiquidFungible(*r),
    {
        match self {
            PersistedSubstate::VaultLiquidFungible(v) => v,
            _ => unreached(),
        }
    }

    /// A mutable borrow of the liquid fungible content of a vault.
    pub fn vault_liquid_fungible_mut(&mut self) -> (r: &mut LiquidFungibleResource)
        requires
            *old(self) is VaultLiquidFungible,
        ensures
            *old(self) == PersistedSubstate::VaultLiquidFungible(*r),
            *final(self) == PersistedSubstate::VaultLiquidFungible(*final(r)),
    {
        match self {
            PersistedSubstate::VaultLiquidFungible(v) => v,
            _ => unreached(),
        }
    }

    /// A borrow of the liquid non-fungible content of a vault.
    pub fn vault_liquid_non_fungible(&self) -> (r: &LiquidNonFungibleResource)
        requires
            self is VaultLiquidNonFungible,
        ensures
            *self == PersistedSubstate::VaultLiquidNonFungible(*r),
    {
        match self {
            PersistedSubstate::VaultLiquidNonFungible(v) => v,
            _ => unreached(),
        }
    }

    /// A mutable borrow of the liquid non-fungible content of a vault.
    pub fn vault_liquid_non_fungible_mut(&mut self) -> (r: &mut LiquidNonFungibleResource)
        requires
            *old(self) is VaultLiquidNonFungible,
        ensures
            *old(self) == PersistedSubstate::VaultLiquidNonFungible(*r),
            *final(self) == PersistedSubstate::VaultLiquidNonFungible(*final(r)),
    {
        match self {
            PersistedSubstate::VaultLiquidNonFungible(v) => v,
            _ => unreached(),
        }
    }

    /// A mutable borrow of the non-fungible-vault info content.
    pub fn vault_info_mut(&mut self) -> (r: &mut NonFungibleVaultIdTypeSubstate)
        requires
            *old(self) is NonFungibleVaultInfo,
        ensures
            *old(self) == PersistedSubstate::NonFungibleVaultInfo(*r),
            *final(self) == PersistedSubstate::NonFungibleVaultInfo(*final(r)),
    {
        match self {
            PersistedSubstate::NonFungibleVaultInfo(v) => v,
            _ => unreached(),
        }
    }

    /// A borrow of the component royalty accumulator content.
    pub fn component_royalty_accumulator(&self) -> (r: &ComponentRoyaltyAccumulatorSubstate)
        requires
            self is ComponentRoyaltyAccumulator,
        ensures
            *self == PersistedSubstate::ComponentRoyaltyAccumulator(*r),
    {
        match self {
            PersistedSubstate::ComponentRoyaltyAccumulator(v) => v,
            _ => unreached(),
        }
    }

    /// A borrow of the package royalty content.
    pub fn package_royalty(&self) -> (r: &PackageRoyaltySubstate)
        requires
            self is PackageRoyalty,
        ensures
            *self == PersistedSubstate::PackageRoyalty(*r),
    {
        match self {
            PersistedSubstate::PackageRoyalty(v) => v,
            _ => unreached(),
        }
    }

    /// A borrow of the package info content.
    pub fn package_info(&self) -> (r: &PackageInfoSubstate)
        requires
            self is PackageInfo,
        ensures
            *self == PersistedSubstate::PackageInfo(*r),
    {
        match self {
            PersistedSubstate::PackageInfo(v) => v,
            _ => unreached(),
        }
    }

    /// A borrow of the package code content.
    pub fn package_code(&self) -> (r: &PackageCodeSubstate)
        requires
            self is PackageCode,
        ensures
            *self == PersistedSubstate::PackageCode(*r),
    {
        match self {
            PersistedSubstate::PackageCode(v) => v,
            _ => unreached(),
        }
    }

    /// A borrow of the type-info content.
    pub fn type_info(&self) -> (r: &TypeInfoSubstate)
        requires
            self is TypeInfo,
        ensures
            *self == PersistedSubstate::TypeInfo(*r),
    {
        match self {
            PersistedSubstate::TypeInfo(v) => v,
            _ => unreached(),
        }
    }

    /// A borrow of the fungible resource-manager content.
    pub fn resource_manager(&self) -> (r: &FungibleResourceManagerSubstate)
        requires
            self is ResourceManager,
        ensures
            *self == PersistedSubstate::ResourceManager(*r),
    {
        match self {
            PersistedSubstate::ResourceManager(v) => v,
            _ => unreached(),
        }
    }
}

impl RuntimeSubstate {
    /// Moves this runtime substate into the persisted form; the transient
    /// kinds may never be persisted.
    pub fn to_persisted(self) -> (r: PersistedSubstate)
        requires
            self.is_persistable(),
        ensures
            r.abs() == self.abs(),
    {
        match self {
            RuntimeSubstate::EpochManager(v) => PersistedSubstate::EpochManager(v),
            RuntimeSubstate::ValidatorSet(v) => PersistedSubstate::ValidatorSet(v),
            RuntimeSubstate::Validator(v) => PersistedSubstate::Validator(v),
            RuntimeSubstate::CurrentTimeRoundedToMinutes(v) =>
                PersistedSubstate::CurrentTimeRoundedToMinutes(v),
            RuntimeSubstate::ResourceManager(v) => PersistedSubstate::ResourceManager(v),
            RuntimeSubstate::NonFungibleResourceManager(v) =>
                PersistedSubstate::NonFungibleResourceManager(v),
            RuntimeSubstate::ComponentState(v) => PersistedSubstate::ComponentState(v),
            RuntimeSubstate::PackageInfo(v) => PersistedSubstate::PackageInfo(v),
            RuntimeSubstate::PackageCodeType(v) => PersistedSubstate::PackageCodeType(v),
            RuntimeSubstate::PackageCode(v) => PersistedSubstate::PackageCode(v),
            RuntimeSubstate::PackageRoyalty(v) => PersistedSubstate::PackageRoyalty(v),
            RuntimeSubstate::FunctionAccessRules(v) => PersistedSubstate::FunctionAccessRules(v),
            RuntimeSubstate::Account(v) => PersistedSubstate::Account(v),
            RuntimeSubstate::AccessController(v) => PersistedSubstate::AccessController(v),
            RuntimeSubstate::FungibleVaultInfo(v) => PersistedSubstate::FungibleVaultInfo(v),
            RuntimeSubstate::NonFungibleVaultInfo(v) => PersistedSubstate::NonFungibleVaultInfo(v),
            RuntimeSubstate::VaultLiquidFungible(v) => PersistedSubstate::VaultLiquidFungible(v),
            RuntimeSubstate::VaultLiquidNonFungible(v) =>
                PersistedSubstate::VaultLiquidNonFungible(v),
            RuntimeSubstate::VaultLockedFungible(v) => PersistedSubstate::VaultLockedFungible(v),
            RuntimeSubstate::VaultLockedNonFungible(v) =>
                PersistedSubstate::VaultLockedNonFungible(v),
            RuntimeSubstate::TypeInfo(v) => PersistedSubstate::TypeInfo(v),
            RuntimeSubstate::MethodAccessRules(v) => PersistedSubstate::MethodAccessRules(v),
            RuntimeSubstate::ComponentRoyaltyConfig(v) =>
                PersistedSubstate::ComponentRoyaltyConfig(v),
            RuntimeSubstate::ComponentRoyaltyAccumulator(v) =>
                PersistedSubstate::ComponentRoyaltyAccumulator(v),
            RuntimeSubstate::KeyValueStoreEntry(v) => PersistedSubstate::KeyValueStoreEntry(v),
            RuntimeSubstate::IterableEntry(v) => PersistedSubstate::IterableEntry(v),
            RuntimeSubstate::Worktop(_) => unreached(),
            RuntimeSubstate::AuthZone(_) => unreached(),
            RuntimeSubstate::BucketInfo(_) => unreached(),
            RuntimeSubstate::BucketLiquidFungible(_) => unreached(),
            RuntimeSubstate::BucketLiquidNonFungible(_) => unreached(),
            RuntimeSubstate::ProofInfo(_) => unreached(),
            RuntimeSubstate::FungibleProof(_) => unreached(),
            RuntimeSubstate::NonFungibleProof(_) => unreached(),
        }
    }

    /// Copies this runtime substate into the persisted form; the transient
    /// kinds may never be persisted.
    pub fn clone_to_persisted(&self) -> (r: PersistedSubstate)
        requires
            self.is_persistable(),
        ensures
            r.abs() == self.abs(),
    {
        match self {
            RuntimeSubstate::EpochManager(v) => PersistedSubstate::EpochManager(*v),
            RuntimeSubstate::ValidatorSet(v) => PersistedSubstate::ValidatorSet(*v),
            RuntimeSubstate::Validator(v) => PersistedSubstate::Validator(*v),
            RuntimeSubstate::CurrentTimeRoundedToMinutes(v) =>
                PersistedSubstate::CurrentTimeRoundedToMinutes(*v),
            RuntimeSubstate::ResourceManager(v) => PersistedSubstate::ResourceManager(*v),
            RuntimeSubstate::NonFungibleResourceManager(v) =>
                PersistedSubstate::NonFungibleResourceManager(*v),
            RuntimeSubstate::ComponentState(v) => PersistedSubstate::ComponentState(
                ComponentStateSubstate { value: v.value.duplicate() },
            ),
            RuntimeSubstate::PackageInfo(v) => {
                let schema_raw = v.schema_raw.clone();
                proof {
                    assert(schema_raw@ =~= v.schema_raw@);
                }
                PersistedSubstate::PackageInfo(PackageInfoSubstate { schema_raw })
            },
            RuntimeSubstate::PackageCodeType(v) => PersistedSubstate::PackageCodeType(*v),
            RuntimeSubstate::PackageCode(v) => {
                let code = v.code.clone();
                proof {
                    assert(code@ =~= v.code@);
                }
                PersistedSubstate::PackageCode(PackageCodeSubstate { code })
            },
            RuntimeSubstate::PackageRoyalty(v) => PersistedSubstate::PackageRoyalty(*v),
            RuntimeSubstate::FunctionAccessRules(v) => PersistedSubstate::FunctionAccessRules(*v),
            RuntimeSubstate::Account(v) => PersistedSubstate::Account(*v),
            RuntimeSubstate::AccessController(v) => PersistedSubstate::AccessController(*v),
            RuntimeSubstate::FungibleVaultInfo(v) => PersistedSubstate::FungibleVaultInfo(*v),
            RuntimeSubstate::NonFungibleVaultInfo(v) =>
                PersistedSubstate::NonFungibleVaultInfo(*v),
            RuntimeSubstate::VaultLiquidFungible(v) => PersistedSubstate::VaultLiquidFungible(*v),
            RuntimeSubstate::VaultLiquidNonFungible(v) => {
                let elems = v.ids.elems.clone();
                proof {
                    assert(elems@ =~= v.ids.elems@);
                }
                PersistedSubstate::VaultLiquidNonFungible(
                    LiquidNonFungibleResource { ids: IdSet { elems } },
                )
            },
            RuntimeSubstate::VaultLockedFungible(v) => PersistedSubstate::VaultLockedFungible(*v),
            RuntimeSubstate::VaultLockedNonFungible(v) => {
                let elems = v.ids.elems.clone();
                proof {
                    assert(elems@ =~= v.ids.elems@);
                }
                PersistedSubstate::VaultLockedNonFungible(
                    LockedNonFungibleResource { ids: IdSet { elems } },
                )
            },
            RuntimeSubstate::TypeInfo(v) => PersistedSubstate::TypeInfo(*v),
            RuntimeSubstate::MethodAccessRules(v) => PersistedSubstate::MethodAccessRules(*v),
            RuntimeSubstate::ComponentRoyaltyConfig(v) =>
                PersistedSubstate::ComponentRoyaltyConfig(*v),
            RuntimeSubstate::ComponentRoyaltyAccumulator(v) =>
                PersistedSubstate::ComponentRoyaltyAccumulator(*v),
            RuntimeSubstate::KeyValueStoreEntry(v) => PersistedSubstate::KeyValueStoreEntry(
                match v {
                    Some(value) => Some(value.duplicate()),
                    None => None,
                },
            ),
            RuntimeSubstate::IterableEntry(v) => PersistedSubstate::IterableEntry(v.duplicate()),
            RuntimeSubstate::Worktop(_) => unreached(),
            RuntimeSubstate::AuthZone(_) => unreached(),
            RuntimeSubstate::BucketInfo(_) => unreached(),
            RuntimeSubstate::BucketLiquidFungible(_) => unreached(),
            RuntimeSubstate::BucketLiquidNonFungible(_) => unreached(),
            RuntimeSubstate::ProofInfo(_) => unreached(),
            RuntimeSubstate::FungibleProof(_) => unreached(),
            RuntimeSubstate::NonFungibleProof(_) => unreached(),
        }
    }

    /// Parses a substate from raw bytes: only component state and key-value
    /// entries may be written from a raw buffer.
    pub fn decode_from_buffer(offset: &SubstateOffset, buffer: &Vec<u8>) -> (r: Result<
        RuntimeSubstate,
        RuntimeError,
    >)
        ensures
            match r {
                Ok(s) => {
                    &&& (offset.abs() matches crate::addressing::SubstateOffsetAbs::Component(_)
                        ==> s.abs() == SubstateAbs::ComponentState(
                        ScryptoValueAbs {
                            raw: buffer@,
                            owned_nodes: Seq::<RENodeId>::empty(),
                            references: Seq::<RENodeId>::empty(),
                        },
                    ))
                    &&& (offset.abs() matches
                        crate::addressing::SubstateOffsetAbs::KeyValueStoreEntry(_) ==> s.abs()
                        == SubstateAbs::KeyValueStoreEntry(
                        Some(
                            ScryptoValueAbs {
                                raw: buffer@,
                                owned_nodes: Seq::<RENodeId>::empty(),
                                references: Seq::<RENodeId>::empty(),
                            },
                        ),
                    ))
                    &&& (offset.abs() is Component || offset.abs() is KeyValueStoreEntry)
                },
                Err(e) => {
                    &&& !(offset.abs() is Component) && !(offset.abs() is KeyValueStoreEntry)
                    &&& e matches RuntimeError::KernelError(KernelError::InvalidOffset(o)) && o.abs()
                        == offset.abs()
                },
            },
    {
        match offset {
            SubstateOffset::Component(ComponentOffset::State0) => Ok(
                RuntimeSubstate::ComponentState(
                    ComponentStateSubstate { value: ScryptoValue::from_raw(buffer.clone()) },
                ),
            ),
            SubstateOffset::KeyValueStore(KeyValueStoreOffset::Entry(_)) => Ok(
                RuntimeSubstate::KeyValueStoreEntry(Some(ScryptoValue::from_raw(buffer.clone()))),
            ),
            _ => {
                let copy = match offset {
                    SubstateOffset::Component(ComponentOffset::State0) => unreached(),
                    SubstateOffset::KeyValueStore(KeyValueStoreOffset::Entry(k)) => unreached(),
                    SubstateOffset::Vault(o) => SubstateOffset::Vault(*o),
                    SubstateOffset::ResourceManager(o) => SubstateOffset::ResourceManager(*o),
                    SubstateOffset::TypeInfo(o) => SubstateOffset::TypeInfo(*o),
                    SubstateOffset::Package(o) => SubstateOffset::Package(*o),
                    SubstateOffset::EpochManager(o) => SubstateOffset::EpochManager(*o),
                    SubstateOffset::Clock(o) => SubstateOffset::Clock(*o),
                    SubstateOffset::Royalty(o) => SubstateOffset::Royalty(*o),
                    SubstateOffset::AccessRules(o) => SubstateOffset::AccessRules(*o),
                    SubstateOffset::Account(o) => SubstateOffset::Account(*o),
                    SubstateOffset::AccessController(o) => SubstateOffset::AccessController(*o),
                    SubstateOffset::IterableMap(k) => SubstateOffset::IterableMap(*k),
                };
                Err(RuntimeError::KernelError(KernelError::InvalidOffset(copy)))
            },
        }
    }

    /// A borrow of the liquid fungible content of a vault.
    pub fn vault_liquid_fungible(&self) -> (r: &LiquidFungibleResource)
        requires
            self is VaultLiquidFungible,
        ensures
            *self == RuntimeSubstate::VaultLiquidFungible(*r),
    {
        match self {
            RuntimeSubstate::VaultLiquidFungible(v) => v,
            _ => unreached(),
        }
    }

    /// A mutable borrow of the liquid fungible content of a vault.
    pub fn vault_liquid_fungible_mut(&mut self) -> (r: &mut LiquidFungibleResource)
        requires
            *old(self) is VaultLiquidFungible,
        ensures
            *old(self) == RuntimeSubstate::VaultLiquidFungible(*r),
            *final(self) == RuntimeSubstate::VaultLiquidFungible(*final(r)),
    {
        match self {
            RuntimeSubstate::VaultLiquidFungible(v) => v,
            _ => unreached(),
        }
    }

    /// A mutable borrow of the non-fungible-vault info content.
    pub fn vault_info_mut(&mut self) -> (r: &mut NonFungibleVaultIdTypeSubstate)
        requires
            *old(self) is NonFungibleVaultInfo,
        ensures
            *old(self) == RuntimeSubstate::NonFungibleVaultInfo(*r),
            *final(self) == RuntimeSubstate::NonFungibleVaultInfo(*final(r)),
    {
        match self {
            RuntimeSubstate::NonFungibleVaultInfo(v) => v,
            _ => unreached(),
        }
    }

    /// A borrow of the package info content.
    pub fn package_info(&self) -> (r: &PackageInfoSubstate)
        requires
            self is PackageInfo,
        ensures
            *self == RuntimeSubstate::PackageInfo(*r),
    {
        match self {
            RuntimeSubstate::PackageInfo(v) => v,
            _ => unreached(),
        }
    }

    /// A borrow of the key-value entry content.
    pub fn kv_store_entry(&self) -> (r: &Option<ScryptoValue>)
        requires
            self is KeyValueStoreEntry,
        ensures
            *self == RuntimeSubstate::KeyValueStoreEntry(*r),
    {
        match self {
            RuntimeSubstate::KeyValueStoreEntry(v) => v,
            _ => unreached(),
        }
    }

    /// A borrow of the validator-set content.
    pub fn validator_set(&self) -> (r: &ValidatorSetSubstate)
        requires
            self is ValidatorSet,
        ensures
            *self == RuntimeSubstate::ValidatorSet(*r),
    {
        match self {
            RuntimeSubstate::ValidatorSet(v) => v,
            _ => unreached(),
        }
    }

    /// A borrow of the account content.
    pub fn account(&self) -> (r: &AccountSubstate)
        requires
            self is Account,
        ensures
            *self == RuntimeSubstate::Account(*r),
    {
        match self {
            RuntimeSubstate::Account(v) => v,
            _ => unreached(),
        }
    }

    /// A borrow of the method access rules content.
    pub fn method_access_rules(&self) -> (r: &MethodAccessRulesSubstate)
        requires
            self is MethodAccessRules,
        ensures
            *self == RuntimeSubstate::MethodAccessRules(*r),
    {
        match self {
            RuntimeSubstate::MethodAccessRules(v) => v,
            _ => unreached(),
        }
    }

    /// A borrow of the access controller content.
    pub fn access_controller(&self) -> (r: &AccessControllerSubstate)
        requires
            self is AccessController,
        ensures
            *self == RuntimeSubstate::AccessController(*r),
    {
        match self {
            RuntimeSubstate::AccessController(v) => v,
            _ => unreached(),
        }
    }

    /// A borrow of the type-info content.
    pub fn type_info(&self) -> (r: &TypeInfoSubstate)
        requires
            self is TypeInfo,
        ensures
            *self == RuntimeSubstate::TypeInfo(*r),
    {
        match self {
            RuntimeSubstate::TypeInfo(v) => v,
            _ => unreached(),
        }
    }

    /// The content of a value-carrying substate, copied out.
    pub fn to_scrypto_value(&self) -> (r: ScryptoValue)
        requires
            self is ComponentState || self is IterableEntry,
        ensures
            self matches RuntimeSubstate::ComponentState(v) ==> r.abs() == v.value.abs(),
            self matches RuntimeSubstate::IterableEntry(v) ==> r.abs() == v.abs(),
    {
        match self {
            RuntimeSubstate::ComponentState(v) => v.value.duplicate(),
            RuntimeSubstate::IterableEntry(v) => v.duplicate(),
            _ => unreached(),
        }
    }
}

/// The node references a substate's content carries, in the mathematical
/// view: the pair of (references, owned nodes).
pub open spec fn spec_references(s: SubstateAbs) -> Seq<RENodeId> {
    match s {
        SubstateAbs::ComponentState(v) => v.references,
        SubstateAbs::KeyValueStoreEntry(Some(v)) => v.references,
        SubstateAbs::IterableEntry(v) => v.references,
        SubstateAbs::TypeInfo(TypeInfoSubstate::Object(info)) => match info.type_parent {
            Some(a) => seq![RENodeId::GlobalObject(a)],
            None => Seq::empty(),
        },
        _ => Seq::empty(),
    }
}

/// The child nodes a substate's content owns, in the mathematical view.
pub open spec fn spec_owned_nodes(s: SubstateAbs) -> Seq<RENodeId> {
    match s {
        SubstateAbs::ComponentState(v) => v.owned_nodes,
        SubstateAbs::KeyValueStoreEntry(Some(v)) => v.owned_nodes,
        SubstateAbs::IterableEntry(v) => v.owned_nodes,
        SubstateAbs::Account(a) => seq![RENodeId::KeyValueStore(a.vaults_store)],
        SubstateAbs::AccessController(ac) => seq![RENodeId::Object(ac.controlled_vault)],
        SubstateAbs::PackageRoyalty(p) => match p.royalty_vault {
            Some(v) => seq![RENodeId::Object(v)],
            None => Seq::empty(),
        },
        SubstateAbs::ComponentRoyaltyAccumulator(c) => match c.royalty_vault {
            Some(v) => seq![RENodeId::Object(v)],
            None => Seq::empty(),
        },
        _ => Seq::empty(),
    }
}

/// Whether a substate of this content kind may be persisted at all: the
/// transient kinds (worktop, auth zone, buckets, proofs) may not.
pub open spec fn persistable(s: SubstateAbs) -> bool {
    match s {
        SubstateAbs::Worktop(_) => false,
        SubstateAbs::AuthZone(_) => false,
        SubstateAbs::BucketInfo(_) => false,
        SubstateAbs::BucketLiquidFungible(_) => false,
        SubstateAbs::BucketLiquidNonFungible(_) => false,
        SubstateAbs::ProofInfo(_) => false,
        SubstateAbs::FungibleProof(_) => false,
        SubstateAbs::NonFungibleProof(_) => false,
        _ => true,
    }
}

/// Whether every node in `nodes` is a global reference.
pub open spec fn all_global(nodes: Seq<RENodeId>) -> bool {
    forall|i: int| 0 <= i < nodes.len() ==> (#[trigger] nodes[i]) is GlobalObject
}

impl RuntimeSubstate {
    /// Collects the outgoing references and the owned child nodes of this
    /// substate's content.
    pub fn references_and_owned_nodes(&self) -> (r: (Vec<RENodeId>, Vec<RENodeId>))
        ensures
            r.0@ == spec_references(self.abs()),
            r.1@ == spec_owned_nodes(self.abs()),
    {
        match self {
            RuntimeSubstate::ComponentState(v) => {
                let refs = v.value.references.clone();
                let owned = v.value.owned_nodes.clone();
                proof {
                    assert(refs@ =~= v.value.references@);
                    assert(owned@ =~= v.value.owned_nodes@);
                }
                (refs, owned)
            },
            RuntimeSubstate::KeyValueStoreEntry(Some(v)) => {
                let refs = v.references.clone();
                let owned = v.owned_nodes.clone();
                proof {
                    assert(refs@ =~= v.references@);
                    assert(owned@ =~= v.owned_nodes@);
                }
                (refs, owned)
            },
            RuntimeSubstate::IterableEntry(v) => {
                let refs = v.references.clone();
                let owned = v.owned_nodes.clone();
                proof {
                    assert(refs@ =~= v.references@);
                    assert(owned@ =~= v.owned_nodes@);
                }
                (refs, owned)
            },
            RuntimeSubstate::TypeInfo(TypeInfoSubstate::Object(info)) => {
                let mut refs: Vec<RENodeId> = Vec::new();
                match info.type_parent {
                    Some(a) => {
                        refs.push(RENodeId::GlobalObject(a));
                        proof {
                            assert(refs@ =~= spec_references(self.abs()));
                        }
                    },
                    None => {},
                }
                proof {
                    assert(refs@ =~= spec_references(self.abs()));
                }
                (refs, Vec::new())
            },
            RuntimeSubstate::Account(a) => {
                let mut owned: Vec<RENodeId> = Vec::new();
                owned.push(RENodeId::KeyValueStore(a.vaults_store));
                proof {
                    assert(owned@ =~= spec_owned_nodes(self.abs()));
                }
                (Vec::new(), owned)
            },
            RuntimeSubstate::AccessController(ac) => {
                let mut owned: Vec<RENodeId> = Vec::new();
                owned.push(RENodeId::Object(ac.controlled_vault));
                proof {
                    assert(owned@ =~= spec_owned_nodes(self.abs()));
                }
                (Vec::new(), owned)
            },
            RuntimeSubstate::PackageRoyalty(p) => {
                let mut owned: Vec<RENodeId> = Vec::new();
                match p.royalty_vault {
                    Some(v) => {
                        owned.push(RENodeId::Object(v));
                    },
                    None => {},
                }
                proof {
                    assert(owned@ =~= spec_owned_nodes(self.abs()));
                }
                (Vec::new(), owned)
            },
            RuntimeSubstate::ComponentRoyaltyAccumulator(c) => {
                let mut owned: Vec<RENodeId> = Vec::new();
                match c.royalty_vault {
                    Some(v) => {
                        owned.push(RENodeId::Object(v));
                    },
                    None => {},
                }
                proof {
                    assert(owned@ =~= spec_owned_nodes(self.abs()));
                }
                (Vec::new(), owned)
            },
            _ => (Vec::new(), Vec::new()),
        }
    }

    /// Whether all outgoing references of this substate are global: only
    /// then may it be persisted without leaking an internal reference.
    pub fn has_only_global_references(&self) -> (r: bool)
        ensures
            r == all_global(spec_references(self.abs())),
    {
        let (refs, _owned) = self.references_and_owned_nodes();
        let n = refs.len();
        let mut i: usize = 0;
        while i < n
            invariant
                n == refs@.len(),
                i <= n,
                refs@ == spec_references(self.abs()),
                forall|j: int| 0 <= j < i ==> (#[trigger] refs@[j]) is GlobalObject,
            decreases n - i,
        {
            let is_global = match refs[i] {
                RENodeId::GlobalObject(_) => true,
                _ => false,
            };
            if !is_global {
                return false;
            }
            i = i + 1;
        }
        true
    }
}

impl PersistedSubstate {
    /// An exact copy of this persisted substate.
    pub fn duplicate(&self) -> (r: PersistedSubstate)
        ensures
            r.abs() == self.abs(),
    {
        match self {
            PersistedSubstate::EpochManager(v) => PersistedSubstate::EpochManager(*v),
            PersistedSubstate::ValidatorSet(v) => PersistedSubstate::ValidatorSet(*v),
            PersistedSubstate::Validator(v) => PersistedSubstate::Validator(*v),
            PersistedSubstate::CurrentTimeRoundedToMinutes(v) =>
                PersistedSubstate::CurrentTimeRoundedToMinutes(*v),
            PersistedSubstate::ResourceManager(v) => PersistedSubstate::ResourceManager(*v),
            PersistedSubstate::NonFungibleResourceManager(v) =>
                PersistedSubstate::NonFungibleResourceManager(*v),
            PersistedSubstate::ComponentState(v) => PersistedSubstate::ComponentState(
                ComponentStateSubstate { value: v.value.duplicate() },
            ),
            PersistedSubstate::PackageInfo(v) => {
                let schema_raw = v.schema_raw.clone();
                proof {
                    assert(schema_raw@ =~= v.schema_raw@);
                }
                PersistedSubstate::PackageInfo(PackageInfoSubstate { schema_raw })
            },
            PersistedSubstate::PackageCodeType(v) => PersistedSubstate::PackageCodeType(*v),
            PersistedSubstate::PackageCode(v) => {
                let code = v.code.clone();
                proof {
                    assert(code@ =~= v.code@);
                }
                PersistedSubstate::PackageCode(PackageCodeSubstate { code })
            },
            PersistedSubstate::PackageRoyalty(v) => PersistedSubstate::PackageRoyalty(*v),
            PersistedSubstate::FunctionAccessRules(v) =>
                PersistedSubstate::FunctionAccessRules(*v),
            PersistedSubstate::Account(v) => PersistedSubstate::Account(*v),
            PersistedSubstate::AccessController(v) => PersistedSubstate::AccessController(*v),
            PersistedSubstate::FungibleVaultInfo(v) => PersistedSubstate::FungibleVaultInfo(*v),
            PersistedSubstate::NonFungibleVaultInfo(v) =>
                PersistedSubstate::NonFungibleVaultInfo(*v),
            PersistedSubstate::VaultLiquidFungible(v) =>
                PersistedSubstate::VaultLiquidFungible(*v),
            PersistedSubstate::VaultLiquidNonFungible(v) => {
                let elems = v.ids.elems.clone();
                proof {
                    assert(elems@ =~= v.ids.elems@);
                }
                PersistedSubstate::VaultLiquidNonFungible(
                    LiquidNonFungibleResource { ids: IdSet { elems } },
                )
            },
            PersistedSubstate::VaultLockedFungible(v) =>
                PersistedSubstate::VaultLockedFungible(*v),
            PersistedSubstate::VaultLockedNonFungible(v) => {
                let elems = v.ids.elems.clone();
                proof {
                    assert(elems@ =~= v.ids.elems@);
                }
                PersistedSubstate::VaultLockedNonFungible(
                    LockedNonFungibleResource { ids: IdSet { elems } },
                )
            },
            PersistedSubstate::TypeInfo(v) => PersistedSubstate::TypeInfo(*v),
            PersistedSubstate::MethodAccessRules(v) => PersistedSubstate::MethodAccessRules(*v),
            PersistedSubstate::ComponentRoyaltyConfig(v) =>
                PersistedSubstate::ComponentRoyaltyConfig(*v),
            PersistedSubstate::ComponentRoyaltyAccumulator(v) =>
                PersistedSubstate::ComponentRoyaltyAccumulator(*v),
            PersistedSubstate::KeyValueStoreEntry(v) => PersistedSubstate::KeyValueStoreEntry(
                match v {
                    Some(value) => Some(value.duplicate()),
                    None => None,
                },
            ),
            PersistedSubstate::IterableEntry(v) => PersistedSubstate::IterableEntry(v.duplicate()),
        }
    }
}

impl PersistedSubstate {
    /// Collects the owned child nodes of this substate's content.
    pub fn owned_nodes_list(&self) -> (r: Vec<RENodeId>)
        ensures
            r@ == spec_owned_nodes(self.abs()),
    {
        match self {
            PersistedSubstate::ComponentState(v) => {
                let owned = v.value.owned_nodes.clone();
                proof {
                    assert(owned@ =~= v.value.owned_nodes@);
                }
                owned
            },
            PersistedSubstate::KeyValueStoreEntry(Some(v)) => {
                let owned = v.owned_nodes.clone();
                proof {
                    assert(owned@ =~= v.owned_nodes@);
                }
                owned
            },
            PersistedSubstate::IterableEntry(v) => {
                let owned = v.owned_nodes.clone();
                proof {
                    assert(owned@ =~= v.owned_nodes@);
                }
                owned
            },
            PersistedSubstate::Account(a) => {
                let mut owned: Vec<RENodeId> = Vec::new();
                owned.push(RENodeId::KeyValueStore(a.vaults_store));
                proof {
                    assert(owned@ =~= spec_owned_nodes(self.abs()));
                }
                owned
            },
            PersistedSubstate::AccessController(ac) => {
                let mut owned: Vec<RENodeId> = Vec::new();
                owned.push(RENodeId::Object(ac.controlled_vault));
                proof {
                    assert(owned@ =~= spec_owned_nodes(self.abs()));
                }
                owned
            },
            PersistedSubstate::PackageRoyalty(p) => {
                let mut owned: Vec<RENodeId> = Vec::new();
                match p.royalty_vault {
                    Some(v) => {
                        owned.push(RENodeId::Object(v));
                    },
                    None => {},
                }
                proof {
                    assert(owned@ =~= spec_owned_nodes(self.abs()));
                }
                owned
            },
            PersistedSubstate::ComponentRoyaltyAccumulator(c) => {
                let mut owned: Vec<RENodeId> = Vec::new();
                match c.royalty_vault {
                    Some(v) => {
                        owned.push(RENodeId::Object(v));
                    },
                    None => {},
                }
                proof {
                    assert(owned@ =~= spec_owned_nodes(self.abs()));
                }
                owned
            },
            _ => {
                let owned: Vec<RENodeId> = Vec::new();
                proof {
                    assert(owned@ =~= spec_owned_nodes(self.abs()));
                }
                owned
            },
        }
    }
}

} // verus!
