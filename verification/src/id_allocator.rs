//! The identifier allocator: deterministic fresh ids and addresses, derived
//! from the transaction hash and per-kind counters, with per-frame
//! bookkeeping of what was allocated and not yet taken.

use vstd::prelude::*;
use crate::addressing::{ComponentAddress, Digest, EntityType, KeyValueStoreId, ObjectId,
    PackageAddress, RENodeId, ResourceAddress};
use crate::collections::{EqKey, OrderedMap};
use crate::errors::{IdAllocationError, KernelError, RuntimeError};
use crate::fingerprint::{digest_u128, digest_u128_from, mix, mix_step};

verus! {

/// The kinds of entities a caller may ask an id for.
#[derive(Debug, Clone, Copy, PartialEq, Eq, Structural, Hash)]
pub enum AllocateEntityType {
    AuthZoneStack,
    KeyValueStore,
    Object,
    Vault,
    GlobalPackage,
    GlobalEpochManager,
    GlobalValidator,
    GlobalFungibleResourceManager,
    GlobalNonFungibleResourceManager,
    GlobalAccount,
    GlobalIdentity,
    GlobalComponent,
    GlobalAccessController,
}

/// The address payload derived from the transaction hash and a counter.
pub open spec fn spec_address_payload(h: Digest, n: u32) -> u128 {
    ((mix(mix(h.hi, h.lo), n as u64) as int) * 0x10000000000000000 + (mix(
        mix(h.lo, h.hi),
        n as u64,
    ) as int)) as u128
}

/// Derives an address payload from the transaction hash and a counter.
pub fn address_payload(h: Digest, n: u32) -> (r: u128)
    ensures
        r == spec_address_payload(h, n),
{
    let hi = mix_step(mix_step(h.hi, h.lo), n as u64);
    let lo = mix_step(mix_step(h.lo, h.hi), n as u64);
    (hi as u128) * 0x10000000000000000u128 + (lo as u128)
}

/// An identifier allocator: how fresh identities are generated.
pub struct IdAllocator {
    /// Ids handed in up front that callers may take.
    pub pre_allocated_ids: Vec<RENodeId>,
    /// Per call frame, the ids allocated and not yet taken.
    pub frame_allocated_ids: Vec<Vec<RENodeId>>,
    /// The next counter per entity kind.
    pub next_entity_ids: OrderedMap<EntityType, u32>,
    /// The next plain object counter.
    pub next_id: u32,
    /// The hash all derived ids are seeded from.
    pub transaction_hash: Digest,
}

impl IdAllocator {
    /// There is always a live frame, and the per-kind counters are unique.
    pub open spec fn inv(&self) -> bool {
        &&& self.frame_allocated_ids@.len() >= 1
        &&& self.next_entity_ids.wf()
    }

    /// A fresh allocator over the given transaction hash and pre-allocated
    /// ids, with one open frame.
    pub fn new(transaction_hash: Digest, pre_allocated_ids: Vec<RENodeId>) -> (r: IdAllocator)
        ensures
            r.inv(),
            r.transaction_hash == transaction_hash,
            r.pre_allocated_ids@ == pre_allocated_ids@,
            r.next_id == 0u32,
            r.frame_allocated_ids@.len() == 1,
            r.frame_allocated_ids@[0]@.len() == 0,
    {
        let mut frames: Vec<Vec<RENodeId>> = Vec::new();
        frames.push(Vec::new());
        IdAllocator {
            pre_allocated_ids,
            frame_allocated_ids: frames,
            next_entity_ids: OrderedMap::new(),
            next_id: 0,
            transaction_hash,
        }
    }

    /// Opens a call frame: its allocation set starts empty.
    pub fn push(&mut self)
        requires
            old(self).inv(),
        ensures
            final(self).inv(),
            final(self).frame_allocated_ids@.len() == old(self).frame_allocated_ids@.len() + 1,
            final(self).frame_allocated_ids@.last()@.len() == 0,
    {
        self.frame_allocated_ids.push(Vec::new());
    }

    /// Closes a call frame: the frame is removed either way, and closing a
    /// frame that still holds un-taken ids reports them.
    pub fn pop(&mut self) -> (r: Result<(), RuntimeError>)
        requires
            old(self).inv(),
            old(self).frame_allocated_ids@.len() >= 2,
        ensures
            final(self).inv(),
            final(self).frame_allocated_ids@ == old(self).frame_allocated_ids@.drop_last(),
            final(self).pre_allocated_ids == old(self).pre_allocated_ids,
            final(self).next_entity_ids == old(self).next_entity_ids,
            final(self).next_id == old(self).next_id,
            final(self).transaction_hash == old(self).transaction_hash,
            match r {
                Ok(()) => old(self).frame_allocated_ids@.last()@.len() == 0,
                Err(e) => {
                    &&& old(self).frame_allocated_ids@.last()@.len() > 0
                    &&& e matches RuntimeError::KernelError(
                        KernelError::IdAllocationError(
                            IdAllocationError::AllocatedIDsNotEmpty(ids),
                        ),
                    ) && ids@ == old(self).frame_allocated_ids@.last()@
                },
            },
    {
        let ids = match self.frame_allocated_ids.pop() {
            Some(ids) => ids,
            None => vstd::pervasive::unreached(),
        };
        if ids.len() > 0 {
            return Err(
                RuntimeError::KernelError(
                    KernelError::IdAllocationError(IdAllocationError::AllocatedIDsNotEmpty(ids)),
                ),
            );
        }
        Ok(())
    }

    /// Takes an allocated id out of the live frame or, failing that, the
    /// pre-allocated set — its first occurrence is removed, so each id can be
    /// taken at most once per place it was allocated; an id nobody allocated
    /// is refused and nothing changes.
    pub fn take_node_id(&mut self, node_id: RENodeId) -> (r: Result<(), RuntimeError>)
        requires
            old(self).inv(),
        ensures
            final(self).inv(),
            r is Ok <==> (old(self).frame_allocated_ids@.last()@.contains(node_id) || old(
                self,
            ).pre_allocated_ids@.contains(node_id)),
            final(self).next_entity_ids == old(self).next_entity_ids,
            final(self).next_id == old(self).next_id,
            final(self).transaction_hash == old(self).transaction_hash,
            old(self).frame_allocated_ids@.last()@.contains(node_id) ==> {
                &&& final(self).pre_allocated_ids == old(self).pre_allocated_ids
                &&& final(self).frame_allocated_ids@.len() == old(
                    self,
                ).frame_allocated_ids@.len()
                &&& (forall|f: int|
                    0 <= f < old(self).frame_allocated_ids@.len() - 1
                        ==> #[trigger] final(self).frame_allocated_ids@[f] == old(
                        self,
                    ).frame_allocated_ids@[f])
                &&& (exists|i: int|
                    #![trigger old(self).frame_allocated_ids@.last()@[i]]
                    0 <= i < old(self).frame_allocated_ids@.last()@.len() && old(
                        self,
                    ).frame_allocated_ids@.last()@[i] == node_id && (forall|j: int|
                        0 <= j < i ==> old(self).frame_allocated_ids@.last()@[j] != node_id)
                        && final(self).frame_allocated_ids@.last()@ == old(
                        self,
                    ).frame_allocated_ids@.last()@.remove(i))
            },
            (!old(self).frame_allocated_ids@.last()@.contains(node_id) && old(
                self,
            ).pre_allocated_ids@.contains(node_id)) ==> {
                &&& final(self).frame_allocated_ids == old(self).frame_allocated_ids
                &&& (exists|i: int|
                    #![trigger old(self).pre_allocated_ids@[i]]
                    0 <= i < old(self).pre_allocated_ids@.len() && old(
                        self,
                    ).pre_allocated_ids@[i] == node_id && (forall|j: int|
                        0 <= j < i ==> old(self).pre_allocated_ids@[j] != node_id)
                        && final(self).pre_allocated_ids@ == old(self).pre_allocated_ids@.remove(
                        i,
                    ))
            },
            r matches Err(e) ==> {
                &&& e == RuntimeError::KernelError(
                    KernelError::IdAllocationError(
                        IdAllocationError::RENodeIdWasNotAllocated(node_id),
                    ),
                )
                &&& *final(self) == *old(self)
            },
    {
        let last = self.frame_allocated_ids.len() - 1;
        let frame_had = {
            let frame = &self.frame_allocated_ids[last];
            let n = frame.len();
            let mut i: usize = 0;
            while i < n && frame[i] != node_id
                invariant
                    n == frame@.len(),
                    i <= n,
                    forall|j: int| 0 <= j < i ==> frame@[j] != node_id,
                decreases n - i,
            {
                i = i + 1;
            }
            if i < n {
                proof {
                    assert(frame@[i as int] == node_id);
                }
                Some(i)
            } else {
                None
            }
        };
        let ghost frame0 = self.frame_allocated_ids@.last()@;
        match frame_had {
            Some(i) => {
                let frame = &mut self.frame_allocated_ids[last];
                proof {
                    assert(frame@[i as int] == node_id);
                }
                frame.remove(i);
                proof {
                    assert(frame0.contains(node_id));
                    assert(self.frame_allocated_ids@.len() == old(
                        self,
                    ).frame_allocated_ids@.len());
                    assert(self.frame_allocated_ids@.last()@ == frame0.remove(i as int));
                    assert(old(self).frame_allocated_ids@.last()@[i as int] == node_id);
                    assert forall|f: int|
                        0 <= f < old(self).frame_allocated_ids@.len() - 1 implies
                        #[trigger] self.frame_allocated_ids@[f] == old(
                        self,
                    ).frame_allocated_ids@[f] by {}
                    assert(exists|ii: int|
                        #![trigger old(self).frame_allocated_ids@.last()@[ii]]
                        0 <= ii < old(self).frame_allocated_ids@.last()@.len() && old(
                            self,
                        ).frame_allocated_ids@.last()@[ii] == node_id && (forall|j: int|
                            0 <= j < ii ==> old(self).frame_allocated_ids@.last()@[j] != node_id)
                            && self.frame_allocated_ids@.last()@ == old(
                            self,
                        ).frame_allocated_ids@.last()@.remove(ii));
                }
                return Ok(());
            },
            None => {
                proof {
                    assert(!frame0.contains(node_id));
                    assert(!old(self).frame_allocated_ids@.last()@.contains(node_id));
                }
            },
        }
        let n = self.pre_allocated_ids.len();
        let mut i: usize = 0;
        while i < n
            invariant
                self.inv(),
                *self == *old(self),
                !old(self).frame_allocated_ids@.last()@.contains(node_id),
                n == self.pre_allocated_ids@.len(),
                i <= n,
                forall|j: int| 0 <= j < i ==> self.pre_allocated_ids@[j] != node_id,
            decreases n - i,
        {
            if self.pre_allocated_ids[i] == node_id {
                proof {
                    assert(self.pre_allocated_ids@[i as int] == node_id);
                    assert(old(self).pre_allocated_ids@[i as int] == node_id);
                }
                self.pre_allocated_ids.remove(i);
                proof {
                    assert(self.pre_allocated_ids@ == old(self).pre_allocated_ids@.remove(
                        i as int,
                    ));
                    assert(old(self).pre_allocated_ids@.contains(node_id));
                    assert(exists|ii: int|
                        #![trigger old(self).pre_allocated_ids@[ii]]
                        0 <= ii < old(self).pre_allocated_ids@.len() && old(
                            self,
                        ).pre_allocated_ids@[ii] == node_id && (forall|j: int|
                            0 <= j < ii ==> old(self).pre_allocated_ids@[j] != node_id)
                            && self.pre_allocated_ids@ == old(self).pre_allocated_ids@.remove(
                            ii,
                        ));
                }
                return Ok(());
            }
            i = i + 1;
        }
        proof {
            assert(!self.pre_allocated_ids@.contains(node_id));
        }
        Err(
            RuntimeError::KernelError(
                KernelError::IdAllocationError(IdAllocationError::RENodeIdWasNotAllocated(node_id)),
            ),
        )
    }

    /// Registers an id materialised by virtualization into the live frame.
    pub fn allocate_virtual_node_id(&mut self, node_id: RENodeId)
        requires
            old(self).inv(),
        ensures
            final(self).inv(),
            final(self).frame_allocated_ids@.last()@ == old(
                self,
            ).frame_allocated_ids@.last()@.push(node_id),
    {
        let last = self.frame_allocated_ids.len() - 1;
        let frame = &mut self.frame_allocated_ids[last];
        frame.push(node_id);
    }

    /// Draws the next plain counter value.
    fn next(&mut self) -> (r: Result<u32, IdAllocationError>)
        requires
            old(self).inv(),
        ensures
            final(self).inv(),
            final(self).transaction_hash == old(self).transaction_hash,
            final(self).next_entity_ids == old(self).next_entity_ids,
            final(self).frame_allocated_ids == old(self).frame_allocated_ids,
            final(self).pre_allocated_ids == old(self).pre_allocated_ids,
            match r {
                Ok(n) => old(self).next_id < u32::MAX && n == old(self).next_id
                    && final(self).next_id == old(self).next_id + 1,
                Err(e) => old(self).next_id == u32::MAX && e == IdAllocationError::OutOfID
                    && final(self).next_id == old(self).next_id,
            },
    {
        if self.next_id == u32::MAX {
            Err(IdAllocationError::OutOfID)
        } else {
            let rtn = self.next_id;
            self.next_id = self.next_id + 1;
            Ok(rtn)
        }
    }

    /// Draws the next counter value of one entity kind.
    fn next_entity_id(&mut self, entity_type: EntityType) -> (r: Result<u32, IdAllocationError>)
        requires
            old(self).inv(),
        ensures
            final(self).inv(),
            final(self).transaction_hash == old(self).transaction_hash,
            final(self).frame_allocated_ids == old(self).frame_allocated_ids,
            final(self).pre_allocated_ids == old(self).pre_allocated_ids,
            final(self).next_id == old(self).next_id,
            match r {
                Ok(n) => n == if old(self).next_entity_ids.contains_abs(entity_type) {
                    old(self).next_entity_ids.at_abs(entity_type)
                } else {
                    0u32
                },
                Err(e) => e == IdAllocationError::OutOfID && *final(self) == *old(self),
            },
    {
        match self.next_entity_ids.index_of(&entity_type) {
            Some(i) => {
                let cur = *self.next_entity_ids.value_at(i);
                if cur == u32::MAX {
                    return Err(IdAllocationError::OutOfID);
                }
                self.next_entity_ids.set_value_at(i, cur + 1);
                Ok(cur)
            },
            None => {
                self.next_entity_ids.insert_entry(entity_type, 1);
                Ok(0)
            },
        }
    }

    /// Derives a fresh package address.
    pub fn new_package_address(&mut self) -> (r: Result<PackageAddress, IdAllocationError>)
        requires
            old(self).inv(),
        ensures
            final(self).inv(),
            final(self).transaction_hash == old(self).transaction_hash,
            final(self).frame_allocated_ids == old(self).frame_allocated_ids,
            final(self).pre_allocated_ids == old(self).pre_allocated_ids,
            r matches Ok(a) ==> a matches PackageAddress::Normal(p) && exists|n: u32|
                p == #[trigger] spec_address_payload(old(self).transaction_hash, n),
            r matches Err(e) ==> e == IdAllocationError::OutOfID && *final(self) == *old(self),
    {
        let h = self.transaction_hash;
        let next_id = match self.next_entity_id(EntityType::GlobalPackage) {
            Ok(n) => n,
            Err(e) => {
                return Err(e);
            },
        };
        Ok(PackageAddress::Normal(address_payload(h, next_id)))
    }

    /// Derives a fresh identity address.
    pub fn new_identity_address(&mut self) -> (r: Result<ComponentAddress, IdAllocationError>)
        requires
            old(self).inv(),
        ensures
            final(self).inv(),
            final(self).transaction_hash == old(self).transaction_hash,
            final(self).frame_allocated_ids == old(self).frame_allocated_ids,
            final(self).pre_allocated_ids == old(self).pre_allocated_ids,
            r matches Ok(a) ==> a is Identity,
            r matches Err(e) ==> e == IdAllocationError::OutOfID && *final(self) == *old(self),
    {
        let h = self.transaction_hash;
        let next_id = match self.next() {
            Ok(n) => n,
            Err(e) => {
                return Err(e);
            },
        };
        Ok(ComponentAddress::Identity(address_payload(h, next_id)))
    }

    /// Derives a fresh account address.
    pub fn new_account_address(&mut self) -> (r: Result<ComponentAddress, IdAllocationError>)
        requires
            old(self).inv(),
        ensures
            final(self).inv(),
            final(self).transaction_hash == old(self).transaction_hash,
            final(self).frame_allocated_ids == old(self).frame_allocated_ids,
            final(self).pre_allocated_ids == old(self).pre_allocated_ids,
            r matches Ok(a) ==> a is Account,
            r matches Err(e) ==> e == IdAllocationError::OutOfID && *final(self) == *old(self),
    {
        let h = self.transaction_hash;
        let next_id = match self.next_entity_id(EntityType::GlobalAccount) {
            Ok(n) => n,
            Err(e) => {
                return Err(e);
            },
        };
        Ok(ComponentAddress::Account(address_payload(h, next_id)))
    }

    /// Derives a fresh component address.
    pub fn new_component_address(&mut self) -> (r: Result<ComponentAddress, IdAllocationError>)
        requires
            old(self).inv(),
        ensures
            final(self).inv(),
            final(self).transaction_hash == old(self).transaction_hash,
            final(self).frame_allocated_ids == old(self).frame_allocated_ids,
            final(self).pre_allocated_ids == old(self).pre_allocated_ids,
            r matches Ok(a) ==> a is Normal,
            r matches Err(e) ==> e == IdAllocationError::OutOfID && *final(self) == *old(self),
    {
        let h = self.transaction_hash;
        let next_id = match self.next_entity_id(EntityType::GlobalComponent) {
            Ok(n) => n,
            Err(e) => {
                return Err(e);
            },
        };
        Ok(ComponentAddress::Normal(address_payload(h, next_id)))
    }

    /// Derives a fresh validator address.
    pub fn new_validator_address(&mut self) -> (r: Result<ComponentAddress, IdAllocationError>)
        requires
            old(self).inv(),
        ensures
            final(self).inv(),
            final(self).transaction_hash == old(self).transaction_hash,
            final(self).frame_allocated_ids == old(self).frame_allocated_ids,
            final(self).pre_allocated_ids == old(self).pre_allocated_ids,
            r matches Ok(a) ==> a is Validator,
            r matches Err(e) ==> e == IdAllocationError::OutOfID && *final(self) == *old(self),
    {
        let h = self.transaction_hash;
        let next_id = match self.next_entity_id(EntityType::GlobalValidator) {
            Ok(n) => n,
            Err(e) => {
                return Err(e);
            },
        };
        Ok(ComponentAddress::Validator(address_payload(h, next_id)))
    }

    /// Derives a fresh epoch-manager address.
    pub fn new_epoch_manager_address(&mut self) -> (r: Result<ComponentAddress, IdAllocationError>)
        requires
            old(self).inv(),
        ensures
            final(self).inv(),
            final(self).transaction_hash == old(self).transaction_hash,
            final(self).frame_allocated_ids == old(self).frame_allocated_ids,
            final(self).pre_allocated_ids == old(self).pre_allocated_ids,
            r matches Ok(a) ==> a is EpochManager,
            r matches Err(e) ==> e == IdAllocationError::OutOfID && *final(self) == *old(self),
    {
        let h = self.transaction_hash;
        let next_id = match self.next_entity_id(EntityType::GlobalEpochManager) {
            Ok(n) => n,
            Err(e) => {
                return Err(e);
            },
        };
        Ok(ComponentAddress::EpochManager(address_payload(h, next_id)))
    }

    /// Derives a fresh clock address.
    pub fn new_clock_address(&mut self) -> (r: Result<ComponentAddress, IdAllocationError>)
        requires
            old(self).inv(),
        ensures
            final(self).inv(),
            final(self).transaction_hash == old(self).transaction_hash,
            final(self).frame_allocated_ids == old(self).frame_allocated_ids,
            final(self).pre_allocated_ids == old(self).pre_allocated_ids,
            r matches Ok(a) ==> a is Clock,
            r matches Err(e) ==> e == IdAllocationError::OutOfID && *final(self) == *old(self),
    {
        let h = self.transaction_hash;
        let next_id = match self.next_entity_id(EntityType::GlobalClock) {
            Ok(n) => n,
            Err(e) => {
                return Err(e);
            },
        };
        Ok(ComponentAddress::Clock(address_payload(h, next_id)))
    }

    /// Derives a fresh access-controller address.
    pub fn new_access_controller_address(&mut self) -> (r: Result<
        ComponentAddress,
        IdAllocationError,
    >)
        requires
            old(self).inv(),
        ensures
            final(self).inv(),
            final(self).transaction_hash == old(self).transaction_hash,
            final(self).frame_allocated_ids == old(self).frame_allocated_ids,
            final(self).pre_allocated_ids == old(self).pre_allocated_ids,
            r matches Ok(a) ==> a is AccessController,
            r matches Err(e) ==> e == IdAllocationError::OutOfID && *final(self) == *old(self),
    {
        let h = self.transaction_hash;
        let next_id = match self.next() {
            Ok(n) => n,
            Err(e) => {
                return Err(e);
            },
        };
        Ok(ComponentAddress::AccessController(address_payload(h, next_id)))
    }

    /// Derives a fresh non-fungible resource address.
    pub fn new_non_fungible_resource_address(&mut self) -> (r: Result<
        ResourceAddress,
        IdAllocationError,
    >)
        requires
            old(self).inv(),
        ensures
            final(self).inv(),
            final(self).transaction_hash == old(self).transaction_hash,
            final(self).frame_allocated_ids == old(self).frame_allocated_ids,
            final(self).pre_allocated_ids == old(self).pre_allocated_ids,
            r matches Ok(a) ==> a is NonFungible,
            r matches Err(e) ==> e == IdAllocationError::OutOfID && *final(self) == *old(self),
    {
        let h = self.transaction_hash;
        let next_id = match self.next_entity_id(EntityType::GlobalNonFungibleResource) {
            Ok(n) => n,
            Err(e) => {
                return Err(e);
            },
        };
        Ok(ResourceAddress::NonFungible(address_payload(h, next_id)))
    }

    /// Derives a fresh fungible resource address.
    pub fn new_fungible_resource_address(&mut self) -> (r: Result<
        ResourceAddress,
        IdAllocationError,
    >)
        requires
            old(self).inv(),
        ensures
            final(self).inv(),
            final(self).transaction_hash == old(self).transaction_hash,
            final(self).frame_allocated_ids == old(self).frame_allocated_ids,
            final(self).pre_allocated_ids == old(self).pre_allocated_ids,
            r matches Ok(a) ==> a is Fungible,
            r matches Err(e) ==> e == IdAllocationError::OutOfID && *final(self) == *old(self),
    {
        let h = self.transaction_hash;
        let next_id = match self.next_entity_id(EntityType::GlobalFungibleResource) {
            Ok(n) => n,
            Err(e) => {
                return Err(e);
            },
        };
        Ok(ResourceAddress::Fungible(address_payload(h, next_id)))
    }

    /// Derives a fresh plain object id.
    pub fn new_object_id(&mut self) -> (r: Result<ObjectId, IdAllocationError>)
        requires
            old(self).inv(),
        ensures
            final(self).inv(),
            final(self).transaction_hash == old(self).transaction_hash,
            final(self).frame_allocated_ids == old(self).frame_allocated_ids,
            final(self).pre_allocated_ids == old(self).pre_allocated_ids,
            final(self).next_entity_ids == old(self).next_entity_ids,
            r is Ok <==> old(self).next_id < u32::MAX,
            r matches Ok(o) ==> o.kind == 0u8 && o.hash_part == old(self).transaction_hash.hi
                && o.index == old(self).next_id && final(self).next_id == old(self).next_id + 1,
            r matches Err(e) ==> e == IdAllocationError::OutOfID && *final(self) == *old(self),
    {
        let h = self.transaction_hash;
        let next_id = match self.next() {
            Ok(n) => n,
            Err(e) => {
                return Err(e);
            },
        };
        Ok(ObjectId { kind: 0, hash_part: h.hi, index: next_id })
    }

    /// Derives a fresh vault id.
    pub fn new_vault_id(&mut self) -> (r: Result<ObjectId, IdAllocationError>)
        requires
            old(self).inv(),
        ensures
            final(self).inv(),
            final(self).transaction_hash == old(self).transaction_hash,
            final(self).frame_allocated_ids == old(self).frame_allocated_ids,
            final(self).pre_allocated_ids == old(self).pre_allocated_ids,
            final(self).next_entity_ids == old(self).next_entity_ids,
            r is Ok <==> old(self).next_id < u32::MAX,
            r matches Ok(o) ==> o.kind == 1u8 && o.hash_part == old(self).transaction_hash.hi
                && o.index == old(self).next_id && final(self).next_id == old(self).next_id + 1,
            r matches Err(e) ==> e == IdAllocationError::OutOfID && *final(self) == *old(self),
    {
        let h = self.transaction_hash;
        let next_id = match self.next() {
            Ok(n) => n,
            Err(e) => {
                return Err(e);
            },
        };
        Ok(ObjectId { kind: 1, hash_part: h.hi, index: next_id })
    }

    /// Derives a fresh key-value store id.
    pub fn new_kv_store_id(&mut self) -> (r: Result<KeyValueStoreId, IdAllocationError>)
        requires
            old(self).inv(),
        ensures
            final(self).inv(),
            final(self).transaction_hash == old(self).transaction_hash,
            final(self).frame_allocated_ids == old(self).frame_allocated_ids,
            final(self).pre_allocated_ids == old(self).pre_allocated_ids,
            final(self).next_entity_ids == old(self).next_entity_ids,
            r is Ok <==> old(self).next_id < u32::MAX,
            r matches Ok(o) ==> o.kind == 2u8 && o.hash_part == old(self).transaction_hash.hi
                && o.index == old(self).next_id && final(self).next_id == old(self).next_id + 1,
            r matches Err(e) ==> e == IdAllocationError::OutOfID && *final(self) == *old(self),
    {
        let h = self.transaction_hash;
        let next_id = match self.next() {
            Ok(n) => n,
            Err(e) => {
                return Err(e);
            },
        };
        Ok(ObjectId { kind: 2, hash_part: h.hi, index: next_id })
    }

    /// Allocates an id of the requested kind and registers it in the live
    /// frame.
    pub fn allocate_node_id(&mut self, node_type: AllocateEntityType) -> (r: Result<
        RENodeId,
        RuntimeError,
    >)
        requires
            old(self).inv(),
        ensures
            final(self).inv(),
            final(self).transaction_hash == old(self).transaction_hash,
            r matches Ok(id) ==> {
                &&& final(self).frame_allocated_ids@.len() == old(
                    self,
                ).frame_allocated_ids@.len()
                &&& (forall|f: int|
                    0 <= f < old(self).frame_allocated_ids@.len() - 1
                        ==> #[trigger] final(self).frame_allocated_ids@[f] == old(
                        self,
                    ).frame_allocated_ids@[f])
                &&& final(self).frame_allocated_ids@.last()@ == old(
                    self,
                ).frame_allocated_ids@.last()@.push(id)
            },
            node_type == AllocateEntityType::AuthZoneStack ==> (r matches Ok(id) && id
                == RENodeId::AuthZoneStack),
            node_type == AllocateEntityType::Object ==> {
                &&& (r is Ok <==> old(self).next_id < u32::MAX)
                &&& (r matches Ok(id) ==> id == RENodeId::Object(
                    ObjectId {
                        kind: 0u8,
                        hash_part: old(self).transaction_hash.hi,
                        index: old(self).next_id,
                    },
                ) && final(self).next_id == old(self).next_id + 1)
            },
            node_type == AllocateEntityType::Vault ==> {
                &&& (r is Ok <==> old(self).next_id < u32::MAX)
                &&& (r matches Ok(id) ==> id == RENodeId::Object(
                    ObjectId {
                        kind: 1u8,
                        hash_part: old(self).transaction_hash.hi,
                        index: old(self).next_id,
                    },
                ) && final(self).next_id == old(self).next_id + 1)
            },
            node_type == AllocateEntityType::KeyValueStore ==> {
                &&& (r is Ok <==> old(self).next_id < u32::MAX)
                &&& (r matches Ok(id) ==> id == RENodeId::KeyValueStore(
                    ObjectId {
                        kind: 2u8,
                        hash_part: old(self).transaction_hash.hi,
                        index: old(self).next_id,
                    },
                ) && final(self).next_id == old(self).next_id + 1)
            },
            r matches Err(_) ==> *final(self) == *old(self),
    {
        let allocated: Result<RENodeId, IdAllocationError> = match node_type {
            AllocateEntityType::AuthZoneStack => Ok(RENodeId::AuthZoneStack),
            AllocateEntityType::KeyValueStore => match self.new_kv_store_id() {
                Ok(id) => Ok(RENodeId::KeyValueStore(id)),
                Err(e) => Err(e),
            },
            AllocateEntityType::Object => match self.new_object_id() {
                Ok(id) => Ok(RENodeId::Object(id)),
                Err(e) => Err(e),
            },
            AllocateEntityType::Vault => match self.new_vault_id() {
                Ok(id) => Ok(RENodeId::Object(id)),
                Err(e) => Err(e),
            },
            AllocateEntityType::GlobalPackage => match self.new_package_address() {
                Ok(a) => Ok(RENodeId::GlobalObject(crate::addressing::Address::Package(a))),
                Err(e) => Err(e),
            },
            AllocateEntityType::GlobalEpochManager => match self.new_epoch_manager_address() {
                Ok(a) => Ok(RENodeId::GlobalObject(crate::addressing::Address::Component(a))),
                Err(e) => Err(e),
            },
            AllocateEntityType::GlobalValidator => match self.new_validator_address() {
                Ok(a) => Ok(RENodeId::GlobalObject(crate::addressing::Address::Component(a))),
                Err(e) => Err(e),
            },
            AllocateEntityType::GlobalFungibleResourceManager => match self
                .new_fungible_resource_address() {
                Ok(a) => Ok(RENodeId::GlobalObject(crate::addressing::Address::Resource(a))),
                Err(e) => Err(e),
            },
            AllocateEntityType::GlobalNonFungibleResourceManager => match self
                .new_non_fungible_resource_address() {
                Ok(a) => Ok(RENodeId::GlobalObject(crate::addressing::Address::Resource(a))),
                Err(e) => Err(e),
            },
            AllocateEntityType::GlobalAccount => match self.new_account_address() {
                Ok(a) => Ok(RENodeId::GlobalObject(crate::addressing::Address::Component(a))),
                Err(e) => Err(e),
            },
            AllocateEntityType::GlobalIdentity => match self.new_identity_address() {
                Ok(a) => Ok(RENodeId::GlobalObject(crate::addressing::Address::Component(a))),
                Err(e) => Err(e),
            },
            AllocateEntityType::GlobalComponent => match self.new_component_address() {
                Ok(a) => Ok(RENodeId::GlobalObject(crate::addressing::Address::Component(a))),
                Err(e) => Err(e),
            },
            AllocateEntityType::GlobalAccessController => match self
                .new_access_controller_address() {
                Ok(a) => Ok(RENodeId::GlobalObject(crate::addressing::Address::Component(a))),
                Err(e) => Err(e),
            },
        };
        let node_id = match allocated {
            Ok(id) => id,
            Err(e) => {
                return Err(
                    RuntimeError::KernelError(KernelError::IdAllocationError(e)),
                );
            },
        };
        let last = self.frame_allocated_ids.len() - 1;
        let frame = &mut self.frame_allocated_ids[last];
        frame.push(node_id);
        Ok(node_id)
    }
}

} // verus!
