//! Proof substates: evidence that an amount or a set of non-fungible ids is
//! locked in some container for the proof's lifetime.

use vstd::prelude::*;
use crate::addressing::{ObjectId, RENodeId, ResourceAddress};
use crate::decimal::Decimal;
use crate::resources::{IdSet, ResourceError};

verus! {

/// A container a proof draws its evidence from.
#[derive(Debug, Clone, Copy, PartialEq, Eq, Structural, Hash)]
pub enum LocalRef {
    Bucket(ObjectId),
    Vault(ObjectId),
}

impl LocalRef {
    /// The node id of the referenced container.
    pub fn to_re_node_id(&self) -> (r: RENodeId)
        ensures
            r == RENodeId::Object(
                match *self {
                    LocalRef::Bucket(id) => id,
                    LocalRef::Vault(id) => id,
                },
            ),
    {
        match self {
            LocalRef::Bucket(id) => RENodeId::Object(*id),
            LocalRef::Vault(id) => RENodeId::Object(*id),
        }
    }
}

/// An error raised when building or using a proof.
#[derive(Debug, Clone, Copy, PartialEq, Eq, Structural, Hash)]
pub enum ProofError {
    /// Error produced by a resource container.
    ResourceError(ResourceError),
    /// Zero-amount or empty non-fungible proofs cannot be made.
    EmptyProofNotAllowed,
    /// A non-fungible operation was applied to a fungible proof.
    NonFungibleOperationNotSupported,
}

/// The granularity of a resource.
#[derive(Debug, Clone, Copy, PartialEq, Eq, Structural, Hash)]
pub enum ResourceType {
    Fungible { divisibility: u8 },
    NonFungible,
}

/// The header substate of a proof.
#[derive(Debug, Clone, Copy, PartialEq, Eq, Structural, Hash)]
pub struct ProofInfoSubstate {
    /// The resource the proof attests to.
    pub resource_address: ResourceAddress,
    /// The granularity of that resource.
    pub resource_type: ResourceType,
    /// Whether movement of this proof is restricted.
    pub restricted: bool,
}

impl ProofInfoSubstate {
    /// Marks the proof as freely movable.
    pub fn change_to_unrestricted(&mut self)
        ensures
            *final(self) == (ProofInfoSubstate { restricted: false, ..*old(self) }),
    {
        self.restricted = false;
    }

    /// Marks the proof as restricted.
    pub fn change_to_restricted(&mut self)
        ensures
            *final(self) == (ProofInfoSubstate { restricted: true, ..*old(self) }),
    {
        self.restricted = true;
    }
}

/// A proof of a fungible amount.
#[derive(Debug, Clone, PartialEq, Eq)]
pub struct FungibleProof {
    /// The attested amount.
    pub total_locked: Decimal,
    /// The supporting containers and the amount locked in each.
    pub evidence: Vec<(LocalRef, Decimal)>,
}

impl FungibleProof {
    /// Builds a proof; an empty proof is refused.
    pub fn new(total_locked: Decimal, evidence: Vec<(LocalRef, Decimal)>) -> (r: Result<
        FungibleProof,
        ProofError,
    >)
        ensures
            match r {
                Ok(p) => total_locked.units != 0 && p.total_locked == total_locked && p.evidence@
                    == evidence@,
                Err(e) => total_locked.units == 0 && e == ProofError::EmptyProofNotAllowed,
            },
    {
        if total_locked.is_zero() {
            return Err(ProofError::EmptyProofNotAllowed);
        }
        Ok(FungibleProof { total_locked, evidence })
    }

    /// The attested amount.
    pub fn amount(&self) -> (r: Decimal)
        ensures
            r == self.total_locked,
    {
        self.total_locked
    }
}

/// A proof of a set of non-fungible ids.
#[derive(Debug, Clone, PartialEq, Eq)]
pub struct NonFungibleProof {
    /// The attested ids.
    pub total_locked: IdSet,
    /// The supporting containers and the ids locked in each.
    pub evidence: Vec<(LocalRef, IdSet)>,
}

impl NonFungibleProof {
    /// Builds a proof; an empty proof is refused.
    pub fn new(total_locked: IdSet, evidence: Vec<(LocalRef, IdSet)>) -> (r: Result<
        NonFungibleProof,
        ProofError,
    >)
        ensures
            match r {
                Ok(p) => total_locked.elems@.len() != 0 && p.total_locked == total_locked
                    && p.evidence@ == evidence@,
                Err(e) => total_locked.elems@.len() == 0 && e == ProofError::EmptyProofNotAllowed,
            },
    {
        if total_locked.is_empty() {
            return Err(ProofError::EmptyProofNotAllowed);
        }
        Ok(NonFungibleProof { total_locked, evidence })
    }

    /// The attested amount: one unit per id.
    pub fn amount(&self) -> (r: Decimal)
        requires
            self.total_locked.elems@.len() <= i128::MAX,
        ensures
            r.units == self.total_locked.elems@.len(),
    {
        Decimal::from_units(self.total_locked.len() as i128)
    }

    /// The attested ids.
    pub fn non_fungible_local_ids(&self) -> (r: &IdSet)
        ensures
            *r == self.total_locked,
    {
        &self.total_locked
    }
}

} // verus!
