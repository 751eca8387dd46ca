//! Addressing model: entity identifiers, module tags and substate offsets.
//!
//! A substate is addressed by a composite key `(entity, module, offset)`.
//! Entity identifiers carry an opaque payload; collection entry keys are
//! byte strings. Each key type has a mathematical key (`EqKey`) so the
//! overlay maps can be stated over mathematical values.

use vstd::prelude::*;
use crate::collections::EqKey;

verus! {

/// A content fingerprint (model of a cryptographic digest).
#[derive(Debug, Clone, Copy, PartialEq, Eq, Structural, Hash)]
pub struct Digest {
    pub hi: u64,
    pub lo: u64,
}

impl Digest {
    /// The digest rendered as its little-endian byte string.
    pub fn to_vec(&self) -> (r: Vec<u8>)
        ensures
            r@ == u64_le_bytes(self.hi) + u64_le_bytes(self.lo),
    {
        let mut buf = u64_to_le_bytes(self.hi);
        let mut rest = u64_to_le_bytes(self.lo);
        buf.append(&mut rest);
        buf
    }
}

/// The little-endian bytes of a 64-bit word.
pub open spec fn u64_le_bytes(x: u64) -> Seq<u8> {
    seq![
        (x % 256) as u8,
        ((x / 256) % 256) as u8,
        ((x / 0x10000) % 256) as u8,
        ((x / 0x1000000) % 256) as u8,
        ((x / 0x100000000) % 256) as u8,
        ((x / 0x10000000000) % 256) as u8,
        ((x / 0x1000000000000) % 256) as u8,
        ((x / 0x100000000000000) % 256) as u8,
    ]
}

/// Computes the little-endian bytes of a 64-bit word.
pub fn u64_to_le_bytes(x: u64) -> (r: Vec<u8>)
    ensures
        r@ == u64_le_bytes(x),
{
    let mut r: Vec<u8> = Vec::new();
    r.push((x % 256) as u8);
    r.push(((x / 256) % 256) as u8);
    r.push(((x / 0x10000) % 256) as u8);
    r.push(((x / 0x1000000) % 256) as u8);
    r.push(((x / 0x100000000) % 256) as u8);
    r.push(((x / 0x10000000000) % 256) as u8);
    r.push(((x / 0x1000000000000) % 256) as u8);
    r.push(((x / 0x100000000000000) % 256) as u8);
    proof {
        assert(r@ =~= u64_le_bytes(x));
    }
    r
}

/// The little-endian bytes of a 128-bit word.
pub open spec fn u128_le_bytes(x: u128) -> Seq<u8> {
    u64_le_bytes((x % 0x10000000000000000) as u64) + u64_le_bytes(
        (x / 0x10000000000000000) as u64,
    )
}

/// Computes the little-endian bytes of a 128-bit word.
pub fn u128_to_le_bytes(x: u128) -> (r: Vec<u8>)
    ensures
        r@ == u128_le_bytes(x),
{
    let mut r = u64_to_le_bytes((x % 0x10000000000000000) as u64);
    let mut rest = u64_to_le_bytes((x / 0x10000000000000000) as u64);
    r.append(&mut rest);
    r
}

/// The different kinds of addressable entities.
#[derive(Debug, Clone, Copy, PartialEq, Eq, Structural, Hash)]
pub enum EntityType {
    GlobalPackage,
    GlobalFungibleResource,
    GlobalNonFungibleResource,
    GlobalEpochManager,
    GlobalValidator,
    GlobalClock,
    GlobalAccessController,
    GlobalAccount,
    GlobalIdentity,
    GlobalComponent,
    GlobalVirtualEcdsaAccount,
    GlobalVirtualEddsaAccount,
    GlobalVirtualEcdsaIdentity,
    GlobalVirtualEddsaIdentity,
    InternalVault,
    InternalAccessController,
    InternalAccount,
    InternalComponent,
    InternalKeyValueStore,
}

impl EntityType {
    /// The discriminant byte of this entity kind.
    pub open spec fn id_spec(&self) -> u8 {
        match *self {
            EntityType::GlobalPackage => 0,
            EntityType::GlobalFungibleResource => 1,
            EntityType::GlobalNonFungibleResource => 2,
            EntityType::GlobalEpochManager => 3,
            EntityType::GlobalValidator => 4,
            EntityType::GlobalClock => 5,
            EntityType::GlobalAccessController => 6,
            EntityType::GlobalAccount => 7,
            EntityType::GlobalIdentity => 8,
            EntityType::GlobalComponent => 9,
            EntityType::GlobalVirtualEcdsaAccount => 10,
            EntityType::GlobalVirtualEddsaAccount => 11,
            EntityType::GlobalVirtualEcdsaIdentity => 12,
            EntityType::GlobalVirtualEddsaIdentity => 13,
            EntityType::InternalVault => 14,
            EntityType::InternalAccessController => 15,
            EntityType::InternalAccount => 16,
            EntityType::InternalComponent => 17,
            EntityType::InternalKeyValueStore => 18,
        }
    }

    /// The discriminant byte of this entity kind.
    pub fn id(&self) -> (r: u8)
        ensures
            r == self.id_spec(),
    {
        match *self {
            EntityType::GlobalPackage => 0,
            EntityType::GlobalFungibleResource => 1,
            EntityType::GlobalNonFungibleResource => 2,
            EntityType::GlobalEpochManager => 3,
            EntityType::GlobalValidator => 4,
            EntityType::GlobalClock => 5,
            EntityType::GlobalAccessController => 6,
            EntityType::GlobalAccount => 7,
            EntityType::GlobalIdentity => 8,
            EntityType::GlobalComponent => 9,
            EntityType::GlobalVirtualEcdsaAccount => 10,
            EntityType::GlobalVirtualEddsaAccount => 11,
            EntityType::GlobalVirtualEcdsaIdentity => 12,
            EntityType::GlobalVirtualEddsaIdentity => 13,
            EntityType::InternalVault => 14,
            EntityType::InternalAccessController => 15,
            EntityType::InternalAccount => 16,
            EntityType::InternalComponent => 17,
            EntityType::InternalKeyValueStore => 18,
        }
    }

    /// Maps a discriminant byte back to the entity kind, when it names one.
    pub fn from_repr(discriminant: u8) -> (r: Option<EntityType>)
        ensures
            match r {
                Some(t) => t.id_spec() == discriminant,
                None => discriminant > 18,
            },
    {
        match discriminant {
            0 => Some(EntityType::GlobalPackage),
            1 => Some(EntityType::GlobalFungibleResource),
            2 => Some(EntityType::GlobalNonFungibleResource),
            3 => Some(EntityType::GlobalEpochManager),
            4 => Some(EntityType::GlobalValidator),
            5 => Some(EntityType::GlobalClock),
            6 => Some(EntityType::GlobalAccessController),
            7 => Some(EntityType::GlobalAccount),
            8 => Some(EntityType::GlobalIdentity),
            9 => Some(EntityType::GlobalComponent),
            10 => Some(EntityType::GlobalVirtualEcdsaAccount),
            11 => Some(EntityType::GlobalVirtualEddsaAccount),
            12 => Some(EntityType::GlobalVirtualEcdsaIdentity),
            13 => Some(EntityType::GlobalVirtualEddsaIdentity),
            14 => Some(EntityType::InternalVault),
            15 => Some(EntityType::InternalAccessController),
            16 => Some(EntityType::InternalAccount),
            17 => Some(EntityType::InternalComponent),
            18 => Some(EntityType::InternalKeyValueStore),
            _ => None,
        }
    }
}

/// A package address.
#[derive(Debug, Clone, Copy, PartialEq, Eq, Structural, Hash)]
pub enum PackageAddress {
    Normal(u128),
}

/// A component address.
#[derive(Debug, Clone, Copy, PartialEq, Eq, Structural, Hash)]
pub enum ComponentAddress {
    Normal(u128),
    Account(u128),
    Identity(u128),
    Clock(u128),
    EpochManager(u128),
    Validator(u128),
    AccessController(u128),
}

/// A resource address.
#[derive(Debug, Clone, Copy, PartialEq, Eq, Structural, Hash)]
pub enum ResourceAddress {
    Fungible(u128),
    NonFungible(u128),
}

impl ResourceAddress {
    /// The address payload without the leading entity-kind byte.
    pub fn to_array_without_entity_id(&self) -> (r: Vec<u8>)
        ensures
            r@ == u128_le_bytes(self.payload()),
    {
        match *self {
            ResourceAddress::Fungible(p) => u128_to_le_bytes(p),
            ResourceAddress::NonFungible(p) => u128_to_le_bytes(p),
        }
    }

    /// The opaque payload of this address.
    pub open spec fn payload(&self) -> u128 {
        match *self {
            ResourceAddress::Fungible(p) => p,
            ResourceAddress::NonFungible(p) => p,
        }
    }

    /// The entity kind of this address.
    pub open spec fn entity_type_spec(&self) -> EntityType {
        match *self {
            ResourceAddress::Fungible(_) => EntityType::GlobalFungibleResource,
            ResourceAddress::NonFungible(_) => EntityType::GlobalNonFungibleResource,
        }
    }

    /// The full byte rendering: the entity-kind byte, then the payload bytes.
    pub fn to_vec(&self) -> (r: Vec<u8>)
        ensures
            r@ == seq![self.entity_type_spec().id_spec()] + u128_le_bytes(self.payload()),
    {
        let mut buf: Vec<u8> = Vec::new();
        let id = match *self {
            ResourceAddress::Fungible(_) => EntityType::GlobalFungibleResource.id(),
            ResourceAddress::NonFungible(_) => EntityType::GlobalNonFungibleResource.id(),
        };
        buf.push(id);
        let mut rest = self.to_array_without_entity_id();
        buf.append(&mut rest);
        proof {
            assert(buf@ =~= seq![self.entity_type_spec().id_spec()] + u128_le_bytes(
                self.payload(),
            ));
        }
        buf
    }
}

/// A global address: a top-level, independently addressable entity.
#[derive(Debug, Clone, Copy, PartialEq, Eq, Structural, Hash)]
pub enum Address {
    Package(PackageAddress),
    Component(ComponentAddress),
    Resource(ResourceAddress),
}

/// A transaction-local object identifier.
#[derive(Debug, Clone, Copy, PartialEq, Eq, Structural, Hash)]
pub struct ObjectId {
    /// The allocation-kind byte.
    pub kind: u8,
    /// Bytes taken from the transaction hash.
    pub hash_part: u64,
    /// The allocation counter.
    pub index: u32,
}

/// A key-value store identifier.
pub type KeyValueStoreId = ObjectId;

/// An identifier carried inside substate content as a non-global reference.
#[derive(Debug, Clone, Copy, PartialEq, Eq, Structural, Hash)]
pub struct InternalRef(pub ObjectId);

impl InternalRef {
    /// The byte rendering of the referenced object id.
    pub fn to_vec(&self) -> (r: Vec<u8>)
        ensures
            r@ == seq![self.0.kind] + u64_le_bytes(self.0.hash_part) + u64_le_bytes(
                self.0.index as u64,
            ),
    {
        let mut buf: Vec<u8> = Vec::new();
        buf.push(self.0.kind);
        let mut h = u64_to_le_bytes(self.0.hash_part);
        buf.append(&mut h);
        let mut i = u64_to_le_bytes(self.0.index as u64);
        buf.append(&mut i);
        proof {
            assert(buf@ =~= seq![self.0.kind] + u64_le_bytes(self.0.hash_part) + u64_le_bytes(
                self.0.index as u64,
            ));
        }
        buf
    }
}

/// An error when parsing an [`InternalRef`] from bytes.
#[derive(Debug, Clone, PartialEq, Eq, Structural)]
pub enum ParseReferenceError {
    InvalidLength(usize),
}

/// A reference to a blob carried by a transaction manifest.
#[derive(Debug, Clone, Copy, PartialEq, Eq, Structural, Hash)]
pub struct ManifestBlobRef(pub Digest);

impl ManifestBlobRef {
    /// The byte rendering of the blob hash.
    pub fn to_vec(&self) -> (r: Vec<u8>)
        ensures
            r@ == u64_le_bytes(self.0.hi) + u64_le_bytes(self.0.lo),
    {
        self.0.to_vec()
    }
}

/// An error when parsing a [`ManifestBlobRef`] from bytes.
#[derive(Debug, Clone, PartialEq, Eq, Structural)]
pub enum ParseManifestBlobRefError {
    InvalidLength,
}

/// A node in the entity graph: a global entity, a transaction-local object,
/// a key-value store, or the auth-zone stack.
#[derive(Debug, Clone, Copy, PartialEq, Eq, Structural, Hash)]
pub enum RENodeId {
    GlobalObject(Address),
    Object(ObjectId),
    KeyValueStore(KeyValueStoreId),
    AuthZoneStack,
}

/// A system module attached to an entity.
#[derive(Debug, Clone, Copy, PartialEq, Eq, Structural, Hash)]
pub enum NodeModuleId {
    SELF,
    TypeInfo,
    Metadata,
    AccessRules,
    ComponentRoyalty,
    PackageRoyalty,
}

/// The offsets of component substates.
#[derive(Debug, Clone, Copy, PartialEq, Eq, Structural, Hash)]
pub enum ComponentOffset {
    State0,
}

/// The offsets of vault substates.
#[derive(Debug, Clone, Copy, PartialEq, Eq, Structural, Hash)]
pub enum VaultOffset {
    Info,
    LiquidFungible,
    LockedFungible,
    LiquidNonFungible,
    LockedNonFungible,
}

/// The offsets of resource-manager substates.
#[derive(Debug, Clone, Copy, PartialEq, Eq, Structural, Hash)]
pub enum ResourceManagerOffset {
    ResourceManager,
}

/// The offsets of type-info substates.
#[derive(Debug, Clone, Copy, PartialEq, Eq, Structural, Hash)]
pub enum TypeInfoOffset {
    TypeInfo,
}

/// The offsets of package substates.
#[derive(Debug, Clone, Copy, PartialEq, Eq, Structural, Hash)]
pub enum PackageOffset {
    Info,
    CodeType,
    Code,
    Royalty,
    FunctionAccessRules,
}

/// The offsets of key-value store entries.
#[derive(Debug, Clone, PartialEq, Eq, Hash)]
pub enum KeyValueStoreOffset {
    Entry(Vec<u8>),
}

/// The offsets of epoch-manager substates.
#[derive(Debug, Clone, Copy, PartialEq, Eq, Structural, Hash)]
pub enum EpochManagerOffset {
    EpochManager,
    CurrentValidatorSet,
    RegisteredValidators,
}

/// The offsets of clock substates.
#[derive(Debug, Clone, Copy, PartialEq, Eq, Structural, Hash)]
pub enum ClockOffset {
    CurrentTimeRoundedToMinutes,
}

/// The offsets of royalty substates.
#[derive(Debug, Clone, Copy, PartialEq, Eq, Structural, Hash)]
pub enum RoyaltyOffset {
    RoyaltyConfig,
    RoyaltyAccumulator,
}

/// The offsets of access-rules substates.
#[derive(Debug, Clone, Copy, PartialEq, Eq, Structural, Hash)]
pub enum AccessRulesOffset {
    AccessRules,
}

/// The offsets of account substates.
#[derive(Debug, Clone, Copy, PartialEq, Eq, Structural, Hash)]
pub enum AccountOffset {
    Account,
}

/// The offsets of access-controller substates.
#[derive(Debug, Clone, Copy, PartialEq, Eq, Structural, Hash)]
pub enum AccessControllerOffset {
    AccessController,
}

/// The offset of a substate within one `(entity, module)` namespace.
#[derive(Debug, Clone, PartialEq, Eq, Hash)]
pub enum SubstateOffset {
    Component(ComponentOffset),
    Vault(VaultOffset),
    ResourceManager(ResourceManagerOffset),
    TypeInfo(TypeInfoOffset),
    Package(PackageOffset),
    KeyValueStore(KeyValueStoreOffset),
    EpochManager(EpochManagerOffset),
    Clock(ClockOffset),
    Royalty(RoyaltyOffset),
    AccessRules(AccessRulesOffset),
    Account(AccountOffset),
    AccessController(AccessControllerOffset),
    IterableMap(u64),
}

/// The mathematical value of a [`SubstateOffset`]: byte keys become
/// mathematical byte strings.
pub enum SubstateOffsetAbs {
    Component(ComponentOffset),
    Vault(VaultOffset),
    ResourceManager(ResourceManagerOffset),
    TypeInfo(TypeInfoOffset),
    Package(PackageOffset),
    KeyValueStoreEntry(Seq<u8>),
    EpochManager(EpochManagerOffset),
    Clock(ClockOffset),
    Royalty(RoyaltyOffset),
    AccessRules(AccessRulesOffset),
    Account(AccountOffset),
    AccessController(AccessControllerOffset),
    IterableMap(u64),
}

impl SubstateOffset {
    /// The mathematical value of this offset.
    pub open spec fn abs(&self) -> SubstateOffsetAbs {
        match *self {
            SubstateOffset::Component(o) => SubstateOffsetAbs::Component(o),
            SubstateOffset::Vault(o) => SubstateOffsetAbs::Vault(o),
            SubstateOffset::ResourceManager(o) => SubstateOffsetAbs::ResourceManager(o),
            SubstateOffset::TypeInfo(o) => SubstateOffsetAbs::TypeInfo(o),
            SubstateOffset::Package(o) => SubstateOffsetAbs::Package(o),
            SubstateOffset::KeyValueStore(KeyValueStoreOffset::Entry(ref k)) =>
                SubstateOffsetAbs::KeyValueStoreEntry(k@),
            SubstateOffset::EpochManager(o) => SubstateOffsetAbs::EpochManager(o),
            SubstateOffset::Clock(o) => SubstateOffsetAbs::Clock(o),
            SubstateOffset::Royalty(o) => SubstateOffsetAbs::Royalty(o),
            SubstateOffset::AccessRules(o) => SubstateOffsetAbs::AccessRules(o),
            SubstateOffset::Account(o) => SubstateOffsetAbs::Account(o),
            SubstateOffset::AccessController(o) => SubstateOffsetAbs::AccessController(o),
            SubstateOffset::IterableMap(k) => SubstateOffsetAbs::IterableMap(k),
        }
    }
}

/// Decides equality of two byte vectors.
pub fn bytes_eq(a: &Vec<u8>, b: &Vec<u8>) -> (r: bool)
    ensures
        r <==> a@ == b@,
{
    let n = a.len();
    if n != b.len() {
        proof {
            assert(a@ != b@);
        }
        return false;
    }
    let mut i: usize = 0;
    while i < n
        invariant
            n == a@.len(),
            n == b@.len(),
            i <= n,
            forall|j: int| 0 <= j < i ==> a@[j] == b@[j],
        decreases n - i,
    {
        if a[i] != b[i] {
            return false;
        }
        i = i + 1;
    }
    proof {
        assert(a@ =~= b@);
    }
    true
}

impl SubstateOffset {
    /// Decides equality of two offsets.
    pub fn eq_offset(&self, other: &SubstateOffset) -> (r: bool)
        ensures
            r <==> self.abs() == other.abs(),
    {
        match (self, other) {
            (SubstateOffset::Component(a), SubstateOffset::Component(b)) => a == b,
            (SubstateOffset::Vault(a), SubstateOffset::Vault(b)) => a == b,
            (SubstateOffset::ResourceManager(a), SubstateOffset::ResourceManager(b)) => a == b,
            (SubstateOffset::TypeInfo(a), SubstateOffset::TypeInfo(b)) => a == b,
            (SubstateOffset::Package(a), SubstateOffset::Package(b)) => a == b,
            (
                SubstateOffset::KeyValueStore(KeyValueStoreOffset::Entry(a)),
                SubstateOffset::KeyValueStore(KeyValueStoreOffset::Entry(b)),
            ) => bytes_eq(a, b),
            (SubstateOffset::EpochManager(a), SubstateOffset::EpochManager(b)) => a == b,
            (SubstateOffset::Clock(a), SubstateOffset::Clock(b)) => a == b,
            (SubstateOffset::Royalty(a), SubstateOffset::Royalty(b)) => a == b,
            (SubstateOffset::AccessRules(a), SubstateOffset::AccessRules(b)) => a == b,
            (SubstateOffset::Account(a), SubstateOffset::Account(b)) => a == b,
            (SubstateOffset::AccessController(a), SubstateOffset::AccessController(b)) => a == b,
            (SubstateOffset::IterableMap(a), SubstateOffset::IterableMap(b)) => a == b,
            _ => false,
        }
    }
}

/// The composite key of a substate: entity, module and offset.
#[derive(Debug, Clone, PartialEq, Eq, Hash)]
pub struct SubstateId(pub RENodeId, pub NodeModuleId, pub SubstateOffset);

/// The mathematical value of a [`SubstateId`].
pub struct SubstateIdAbs {
    pub node_id: RENodeId,
    pub module_id: NodeModuleId,
    pub offset: SubstateOffsetAbs,
}

impl SubstateId {
    /// The mathematical value of this key.
    pub open spec fn abs(&self) -> SubstateIdAbs {
        SubstateIdAbs { node_id: self.0, module_id: self.1, offset: self.2.abs() }
    }
}

impl EqKey for SubstateId {
    type Abs = SubstateIdAbs;

    open spec fn key(&self) -> SubstateIdAbs {
        self.abs()
    }

    fn eq_key(&self, other: &Self) -> (r: bool) {
        self.0 == other.0 && self.1 == other.1 && self.2.eq_offset(&other.2)
    }
}

/// An `(entity, module)` pair: the namespace of a keyed collection.
#[derive(Debug, Clone, Copy, PartialEq, Eq, Structural, Hash)]
pub struct NodeModule {
    pub node_id: RENodeId,
    pub module_id: NodeModuleId,
}

impl EqKey for NodeModule {
    type Abs = NodeModule;

    open spec fn key(&self) -> NodeModule {
        *self
    }

    fn eq_key(&self, other: &Self) -> (r: bool) {
        self == other
    }
}

/// A byte-string key, as used by keyed collections.
#[derive(Debug, Clone, PartialEq, Eq, Hash)]
pub struct ByteKey(pub Vec<u8>);

impl EqKey for ByteKey {
    type Abs = Seq<u8>;

    open spec fn key(&self) -> Seq<u8> {
        self.0@
    }

    fn eq_key(&self, other: &Self) -> (r: bool) {
        bytes_eq(&self.0, &other.0)
    }
}

impl SubstateOffset {
    /// An exact copy of this offset.
    pub fn duplicate(&self) -> (r: SubstateOffset)
        ensures
            r.abs() == self.abs(),
    {
        match self {
            SubstateOffset::Component(o) => SubstateOffset::Component(*o),
            SubstateOffset::Vault(o) => SubstateOffset::Vault(*o),
            SubstateOffset::ResourceManager(o) => SubstateOffset::ResourceManager(*o),
            SubstateOffset::TypeInfo(o) => SubstateOffset::TypeInfo(*o),
            SubstateOffset::Package(o) => SubstateOffset::Package(*o),
            SubstateOffset::KeyValueStore(KeyValueStoreOffset::Entry(k)) => {
                let kk = k.clone();
                proof {
                    assert(kk@ =~= k@);
                }
                SubstateOffset::KeyValueStore(KeyValueStoreOffset::Entry(kk))
            },
            SubstateOffset::EpochManager(o) => SubstateOffset::EpochManager(*o),
            SubstateOffset::Clock(o) => SubstateOffset::Clock(*o),
            SubstateOffset::Royalty(o) => SubstateOffset::Royalty(*o),
            SubstateOffset::AccessRules(o) => SubstateOffset::AccessRules(*o),
            SubstateOffset::Account(o) => SubstateOffset::Account(*o),
            SubstateOffset::AccessController(o) => SubstateOffset::AccessController(*o),
            SubstateOffset::IterableMap(k) => SubstateOffset::IterableMap(*k),
        }
    }
}

impl SubstateId {
    /// An exact copy of this key.
    pub fn duplicate(&self) -> (r: SubstateId)
        ensures
            r.abs() == self.abs(),
    {
        SubstateId(self.0, self.1, self.2.duplicate())
    }
}

impl EqKey for ObjectId {
    type Abs = ObjectId;

    open spec fn key(&self) -> ObjectId {
        *self
    }

    fn eq_key(&self, other: &Self) -> (r: bool) {
        self == other
    }
}

impl EqKey for Address {
    type Abs = Address;

    open spec fn key(&self) -> Address {
        *self
    }

    fn eq_key(&self, other: &Self) -> (r: bool) {
        self == other
    }
}

impl EqKey for ResourceAddress {
    type Abs = ResourceAddress;

    open spec fn key(&self) -> ResourceAddress {
        *self
    }

    fn eq_key(&self, other: &Self) -> (r: bool) {
        self == other
    }
}

impl EqKey for RENodeId {
    type Abs = RENodeId;

    open spec fn key(&self) -> RENodeId {
        *self
    }

    fn eq_key(&self, other: &Self) -> (r: bool) {
        self == other
    }
}

impl EqKey for EntityType {
    type Abs = EntityType;

    open spec fn key(&self) -> EntityType {
        *self
    }

    fn eq_key(&self, other: &Self) -> (r: bool) {
        self == other
    }
}

} // verus!
