//! Content fingerprints: a deterministic digest of a persisted substate,
//! recorded in the diff so a replaced store row can be identified by key,
//! content and version.

use vstd::prelude::*;
use crate::addressing::{Address, ComponentAddress, Digest, ObjectId, PackageAddress, RENodeId,
    ResourceAddress};
use crate::decimal::Decimal;
use crate::proofs::ResourceType;
use crate::substates::{persistable, BlueprintName, NonFungibleIdType, ObjectInfo,
    PackageCodeTypeSubstate, PersistedSubstate, ScryptoValue, ScryptoValueAbs, SubstateAbs,
    TypeInfoSubstate};

verus! {

/// The multiplier of the digest's mixing step.
pub const DIGEST_PRIME: u64 = 0x100000001b3;

/// One mixing step of the digest.
pub open spec fn mix(acc: u64, b: u64) -> u64 {
    (((acc as int) * (DIGEST_PRIME as int) + (b as int)) % 0x10000000000000000) as u64
}

/// Computes one mixing step of the digest.
pub fn mix_step(acc: u64, b: u64) -> (r: u64)
    ensures
        r == mix(acc, b),
{
    proof {
        assert((acc as u128) * (DIGEST_PRIME as u128) <= (0xffffffffffffffffu128) * (
        DIGEST_PRIME as u128)) by (nonlinear_arith)
            requires
                acc as u128 <= 0xffffffffffffffffu128,
        ;
    }
    let wide: u128 = (acc as u128) * (DIGEST_PRIME as u128) + (b as u128);
    (wide % 0x10000000000000000u128) as u64
}

/// The digest of a byte string, folded left to right onto `acc`.
pub open spec fn digest_bytes(s: Seq<u8>, acc: u64) -> u64
    decreases s.len(),
{
    if s.len() == 0 {
        acc
    } else {
        digest_bytes(s.drop_first(), mix(acc, s[0] as u64))
    }
}

/// Computes the digest of a byte string.
pub fn digest_bytes_from(acc: u64, s: &Vec<u8>) -> (r: u64)
    ensures
        r == digest_bytes(s@, acc),
{
    let n = s.len();
    let mut cur = acc;
    let mut i: usize = 0;
    proof {
        assert(s@.skip(0) =~= s@);
    }
    while i < n
        invariant
            n == s@.len(),
            i <= n,
            digest_bytes(s@, acc) == digest_bytes(s@.skip(i as int), cur),
        decreases n - i,
    {
        proof {
            assert(s@.skip(i as int).drop_first() =~= s@.skip(i + 1));
            assert(s@.skip(i as int)[0] == s@[i as int]);
        }
        cur = mix_step(cur, s[i] as u64);
        i = i + 1;
    }
    proof {
        assert(s@.skip(n as int) =~= Seq::<u8>::empty());
    }
    cur
}

/// The digest of a sequence of 64-bit words, folded onto `acc`.
pub open spec fn digest_words(s: Seq<u64>, acc: u64) -> u64
    decreases s.len(),
{
    if s.len() == 0 {
        acc
    } else {
        digest_words(s.drop_first(), mix(acc, s[0]))
    }
}

/// Computes the digest of a sequence of 64-bit words.
pub fn digest_words_from(acc: u64, s: &Vec<u64>) -> (r: u64)
    ensures
        r == digest_words(s@, acc),
{
    let n = s.len();
    let mut cur = acc;
    let mut i: usize = 0;
    proof {
        assert(s@.skip(0) =~= s@);
    }
    while i < n
        invariant
            n == s@.len(),
            i <= n,
            digest_words(s@, acc) == digest_words(s@.skip(i as int), cur),
        decreases n - i,
    {
        proof {
            assert(s@.skip(i as int).drop_first() =~= s@.skip(i + 1));
            assert(s@.skip(i as int)[0] == s@[i as int]);
        }
        cur = mix_step(cur, s[i]);
        i = i + 1;
    }
    proof {
        assert(s@.skip(n as int) =~= Seq::<u64>::empty());
    }
    cur
}

/// The digest of an address payload.
pub open spec fn digest_u128(x: u128, acc: u64) -> u64 {
    mix(mix(acc, (x % 0x10000000000000000) as u64), (x / 0x10000000000000000) as u64)
}

/// Computes the digest of an address payload.
pub fn digest_u128_from(acc: u64, x: u128) -> (r: u64)
    ensures
        r == digest_u128(x, acc),
{
    mix_step(mix_step(acc, (x % 0x10000000000000000) as u64), (x / 0x10000000000000000) as u64)
}

/// The digest of one node identifier.
pub open spec fn digest_node(n: RENodeId, acc: u64) -> u64 {
    match n {
        RENodeId::GlobalObject(a) => match a {
            Address::Package(PackageAddress::Normal(p)) => digest_u128(p, mix(acc, 1)),
            Address::Component(c) => match c {
                ComponentAddress::Normal(p) => digest_u128(p, mix(acc, 2)),
                ComponentAddress::Account(p) => digest_u128(p, mix(acc, 3)),
                ComponentAddress::Identity(p) => digest_u128(p, mix(acc, 4)),
                ComponentAddress::Clock(p) => digest_u128(p, mix(acc, 5)),
                ComponentAddress::EpochManager(p) => digest_u128(p, mix(acc, 6)),
                ComponentAddress::Validator(p) => digest_u128(p, mix(acc, 7)),
                ComponentAddress::AccessController(p) => digest_u128(p, mix(acc, 8)),
            },
            Address::Resource(ResourceAddress::Fungible(p)) => digest_u128(p, mix(acc, 9)),
            Address::Resource(ResourceAddress::NonFungible(p)) => digest_u128(p, mix(acc, 10)),
        },
        RENodeId::Object(o) => mix(mix(mix(mix(acc, 11), o.kind as u64), o.hash_part), o.index as u64),
        RENodeId::KeyValueStore(o) => mix(
            mix(mix(mix(acc, 12), o.kind as u64), o.hash_part),
            o.index as u64,
        ),
        RENodeId::AuthZoneStack => mix(acc, 13),
    }
}

/// Computes the digest of one node identifier.
pub fn digest_node_from(acc: u64, n: &RENodeId) -> (r: u64)
    ensures
        r == digest_node(*n, acc),
{
    match n {
        RENodeId::GlobalObject(a) => match a {
            Address::Package(PackageAddress::Normal(p)) => digest_u128_from(mix_step(acc, 1), *p),
            Address::Component(c) => match c {
                ComponentAddress::Normal(p) => digest_u128_from(mix_step(acc, 2), *p),
                ComponentAddress::Account(p) => digest_u128_from(mix_step(acc, 3), *p),
                ComponentAddress::Identity(p) => digest_u128_from(mix_step(acc, 4), *p),
                ComponentAddress::Clock(p) => digest_u128_from(mix_step(acc, 5), *p),
                ComponentAddress::EpochManager(p) => digest_u128_from(mix_step(acc, 6), *p),
                ComponentAddress::Validator(p) => digest_u128_from(mix_step(acc, 7), *p),
                ComponentAddress::AccessController(p) => digest_u128_from(mix_step(acc, 8), *p),
            },
            Address::Resource(ResourceAddress::Fungible(p)) => digest_u128_from(
                mix_step(acc, 9),
                *p,
            ),
            Address::Resource(ResourceAddress::NonFungible(p)) => digest_u128_from(
                mix_step(acc, 10),
                *p,
            ),
        },
        RENodeId::Object(o) => mix_step(
            mix_step(mix_step(mix_step(acc, 11), o.kind as u64), o.hash_part),
            o.index as u64,
        ),
        RENodeId::KeyValueStore(o) => mix_step(
            mix_step(mix_step(mix_step(acc, 12), o.kind as u64), o.hash_part),
            o.index as u64,
        ),
        RENodeId::AuthZoneStack => mix_step(acc, 13),
    }
}

/// The digest of a sequence of node identifiers, folded onto `acc`.
pub open spec fn digest_nodes(s: Seq<RENodeId>, acc: u64) -> u64
    decreases s.len(),
{
    if s.len() == 0 {
        acc
    } else {
        digest_nodes(s.drop_first(), digest_node(s[0], acc))
    }
}

/// Computes the digest of a sequence of node identifiers.
pub fn digest_nodes_from(acc: u64, s: &Vec<RENodeId>) -> (r: u64)
    ensures
        r == digest_nodes(s@, acc),
{
    let n = s.len();
    let mut cur = acc;
    let mut i: usize = 0;
    proof {
        assert(s@.skip(0) =~= s@);
    }
    while i < n
        invariant
            n == s@.len(),
            i <= n,
            digest_nodes(s@, acc) == digest_nodes(s@.skip(i as int), cur),
        decreases n - i,
    {
        proof {
            assert(s@.skip(i as int).drop_first() =~= s@.skip(i + 1));
            assert(s@.skip(i as int)[0] == s@[i as int]);
        }
        cur = digest_node_from(cur, &s[i]);
        i = i + 1;
    }
    proof {
        assert(s@.skip(n as int) =~= Seq::<RENodeId>::empty());
    }
    cur
}

/// The digest of one piece of substate content.
pub open spec fn digest_value(v: ScryptoValueAbs, acc: u64) -> u64 {
    digest_nodes(v.references, digest_nodes(v.owned_nodes, digest_bytes(v.raw, acc)))
}

/// Computes the digest of one piece of substate content.
pub fn digest_value_from(acc: u64, v: &ScryptoValue) -> (r: u64)
    ensures
        r == digest_value(v.abs(), acc),
{
    let a = digest_bytes_from(acc, &v.raw);
    let b = digest_nodes_from(a, &v.owned_nodes);
    digest_nodes_from(b, &v.references)
}

/// The two's-complement representation of a signed amount.
pub open spec fn amount_rep(d: Decimal) -> int {
    if d.units >= 0 {
        d.units as int
    } else {
        d.units + 0x100000000000000000000000000000000
    }
}

/// The digest of a signed amount.
pub open spec fn digest_amount(d: Decimal, acc: u64) -> u64 {
    mix(
        mix(acc, (amount_rep(d) % 0x10000000000000000) as u64),
        ((amount_rep(d) / 0x10000000000000000) % 0x10000000000000000) as u64,
    )
}

/// Computes the digest of a signed amount.
pub fn digest_amount_from(acc: u64, d: Decimal) -> (r: u64)
    ensures
        r == digest_amount(d, acc),
{
    let bits: u128 = if d.units >= 0 {
        d.units as u128
    } else {
        0xffffffffffffffffffffffffffffffffu128 - ((-(d.units + 1)) as u128)
    };
    proof {
        assert(bits as int == amount_rep(d));
    }
    let lo: u64 = (bits % 0x10000000000000000u128) as u64;
    let hi: u64 = ((bits / 0x10000000000000000u128) % 0x10000000000000000u128) as u64;
    mix_step(mix_step(acc, lo), hi)
}

/// The digest of a resource address.
pub open spec fn digest_resource(a: ResourceAddress, acc: u64) -> u64 {
    match a {
        ResourceAddress::Fungible(p) => digest_u128(p, mix(acc, 1)),
        ResourceAddress::NonFungible(p) => digest_u128(p, mix(acc, 2)),
    }
}

/// Computes the digest of a resource address.
pub fn digest_resource_from(acc: u64, a: ResourceAddress) -> (r: u64)
    ensures
        r == digest_resource(a, acc),
{
    match a {
        ResourceAddress::Fungible(p) => digest_u128_from(mix_step(acc, 1), p),
        ResourceAddress::NonFungible(p) => digest_u128_from(mix_step(acc, 2), p),
    }
}

/// The digest of a whole persisted substate: a variant tag, then the
/// variant's content.
#[verifier::opaque]
pub open spec fn spec_substate_digest(s: SubstateAbs) -> u64 {
    match s {
        SubstateAbs::EpochManager(v) => mix(mix(mix(0, 1), v.epoch), v.round),
        SubstateAbs::ValidatorSet(v) => mix(mix(mix(0, 2), v.epoch), v.validator_count),
        SubstateAbs::Validator(v) => mix(
            mix(mix(0, 3), v.key),
            if v.is_registered {
                1
            } else {
                0
            },
        ),
        SubstateAbs::CurrentTimeRoundedToMinutes(v) => mix(
            mix(0, 4),
            v.current_time_rounded_to_minutes_ms,
        ),
        SubstateAbs::ResourceManager(v) => digest_amount(
            v.total_supply,
            mix(digest_resource(v.resource_address, mix(0, 5)), v.divisibility as u64),
        ),
        SubstateAbs::NonFungibleResourceManager(v) => digest_amount(
            v.total_supply,
            mix(
                digest_resource(v.resource_address, mix(0, 6)),
                match v.id_type {
                    NonFungibleIdType::Integer => 1u64,
                    NonFungibleIdType::Bytes => 2u64,
                },
            ),
        ),
        SubstateAbs::ComponentState(v) => digest_value(v, mix(0, 7)),
        SubstateAbs::PackageInfo(raw) => digest_bytes(raw, mix(0, 8)),
        SubstateAbs::PackageCodeType(v) => mix(
            mix(0, 9),
            match v {
                PackageCodeTypeSubstate::Native => 1u64,
                PackageCodeTypeSubstate::Wasm => 2u64,
            },
        ),
        SubstateAbs::PackageCode(code) => digest_bytes(code, mix(0, 10)),
        SubstateAbs::PackageRoyalty(v) => match v.royalty_vault {
            Some(o) => mix(mix(mix(mix(0, 11), o.kind as u64), o.hash_part), o.index as u64),
            None => mix(mix(0, 11), 0),
        },
        SubstateAbs::FunctionAccessRules(v) => mix(
            mix(0, 12),
            if v.default_allow {
                1
            } else {
                0
            },
        ),
        SubstateAbs::Account(v) => mix(
            mix(mix(mix(0, 13), v.vaults_store.kind as u64), v.vaults_store.hash_part),
            v.vaults_store.index as u64,
        ),
        SubstateAbs::AccessController(v) => mix(
            mix(
                mix(mix(mix(0, 14), v.controlled_vault.kind as u64), v.controlled_vault.hash_part),
                v.controlled_vault.index as u64,
            ),
            if v.is_primary_role_locked {
                1
            } else {
                0
            },
        ),
        SubstateAbs::FungibleVaultInfo(v) => mix(mix(0, 15), v.divisibility as u64),
        SubstateAbs::NonFungibleVaultInfo(v) => mix(
            mix(0, 16),
            match v.id_type {
                NonFungibleIdType::Integer => 1u64,
                NonFungibleIdType::Bytes => 2u64,
            },
        ),
        SubstateAbs::VaultLiquidFungible(v) => digest_amount(v.amount_units, mix(0, 17)),
        SubstateAbs::VaultLiquidNonFungible(ids) => digest_words(ids, mix(0, 18)),
        SubstateAbs::VaultLockedFungible(v) => digest_amount(v.amount_units, mix(0, 19)),
        SubstateAbs::VaultLockedNonFungible(ids) => digest_words(ids, mix(0, 20)),
        SubstateAbs::TypeInfo(v) => match v {
            TypeInfoSubstate::KeyValueStore => mix(mix(0, 21), 1),
            TypeInfoSubstate::Object(info) => digest_type_info(info, mix(mix(0, 21), 2)),
        },
        SubstateAbs::MethodAccessRules(v) => mix(
            mix(0, 22),
            if v.default_allow {
                1
            } else {
                0
            },
        ),
        SubstateAbs::ComponentRoyaltyConfig(v) => mix(mix(0, 23), v.royalty_rate),
        SubstateAbs::ComponentRoyaltyAccumulator(v) => match v.royalty_vault {
            Some(o) => mix(mix(mix(mix(0, 24), o.kind as u64), o.hash_part), o.index as u64),
            None => mix(mix(0, 24), 0),
        },
        SubstateAbs::KeyValueStoreEntry(v) => match v {
            Some(value) => digest_value(value, mix(mix(0, 25), 1)),
            None => mix(mix(0, 25), 0),
        },
        SubstateAbs::IterableEntry(v) => digest_value(v, mix(0, 26)),
        _ => mix(0, 27),
    }
}

/// The digest of an object's type information.
pub open spec fn digest_type_info(info: ObjectInfo, acc: u64) -> u64 {
    let a = match info.blueprint.package_address {
        PackageAddress::Normal(p) => digest_u128(p, acc),
    };
    let b = match info.blueprint.blueprint_name {
        BlueprintName::FungibleVault => mix(a, 1),
        BlueprintName::NonFungibleVault => mix(a, 2),
        BlueprintName::Account => mix(a, 3),
        BlueprintName::Named(n) => mix(mix(a, 4), n),
    };
    let c = mix(
        b,
        if info.global {
            1
        } else {
            0
        },
    );
    match info.type_parent {
        Some(addr) => digest_node(RENodeId::GlobalObject(addr), mix(c, 1)),
        None => mix(c, 0),
    }
}

/// Computes the digest of an object's type information.
pub fn digest_type_info_from(acc: u64, info: &ObjectInfo) -> (r: u64)
    ensures
        r == digest_type_info(*info, acc),
{
    let a = match info.blueprint.package_address {
        PackageAddress::Normal(p) => digest_u128_from(acc, p),
    };
    let b = match info.blueprint.blueprint_name {
        BlueprintName::FungibleVault => mix_step(a, 1),
        BlueprintName::NonFungibleVault => mix_step(a, 2),
        BlueprintName::Account => mix_step(a, 3),
        BlueprintName::Named(n) => mix_step(mix_step(a, 4), n),
    };
    let c = mix_step(b, if info.global { 1 } else { 0 });
    match info.type_parent {
        Some(addr) => digest_node_from(mix_step(c, 1), &RENodeId::GlobalObject(addr)),
        None => mix_step(c, 0),
    }
}

/// The content fingerprint of one persisted substate.
#[verifier::opaque]
pub open spec fn spec_fingerprint(s: SubstateAbs) -> Digest {
    Digest { hi: spec_substate_digest(s), lo: mix(spec_substate_digest(s), DIGEST_PRIME) }
}

/// Computes the content fingerprint of one persisted substate.
pub fn substate_fingerprint(s: &PersistedSubstate) -> (r: Digest)
    ensures
        r == spec_fingerprint(s.abs()),
{
    proof {
        reveal(spec_fingerprint);
        reveal(spec_substate_digest);
    }
    let d: u64 = match s {
        PersistedSubstate::EpochManager(v) => mix_step(mix_step(mix_step(0, 1), v.epoch), v.round),
        PersistedSubstate::ValidatorSet(v) => mix_step(
            mix_step(mix_step(0, 2), v.epoch),
            v.validator_count,
        ),
        PersistedSubstate::Validator(v) => mix_step(
            mix_step(mix_step(0, 3), v.key),
            if v.is_registered {
                1
            } else {
                0
            },
        ),
        PersistedSubstate::CurrentTimeRoundedToMinutes(v) => mix_step(
            mix_step(0, 4),
            v.current_time_rounded_to_minutes_ms,
        ),
        PersistedSubstate::ResourceManager(v) => digest_amount_from(
            mix_step(
                digest_resource_from(mix_step(0, 5), v.resource_address),
                v.divisibility as u64,
            ),
            v.total_supply,
        ),
        PersistedSubstate::NonFungibleResourceManager(v) => digest_amount_from(
            mix_step(
                digest_resource_from(mix_step(0, 6), v.resource_address),
                match v.id_type {
                    NonFungibleIdType::Integer => 1u64,
                    NonFungibleIdType::Bytes => 2u64,
                },
            ),
            v.total_supply,
        ),
        PersistedSubstate::ComponentState(v) => digest_value_from(mix_step(0, 7), &v.value),
        PersistedSubstate::PackageInfo(v) => digest_bytes_from(mix_step(0, 8), &v.schema_raw),
        PersistedSubstate::PackageCodeType(v) => mix_step(
            mix_step(0, 9),
            match v {
                PackageCodeTypeSubstate::Native => 1u64,
                PackageCodeTypeSubstate::Wasm => 2u64,
            },
        ),
        PersistedSubstate::PackageCode(v) => digest_bytes_from(mix_step(0, 10), &v.code),
        PersistedSubstate::PackageRoyalty(v) => match v.royalty_vault {
            Some(o) => mix_step(
                mix_step(mix_step(mix_step(0, 11), o.kind as u64), o.hash_part),
                o.index as u64,
            ),
            None => mix_step(mix_step(0, 11), 0),
        },
        PersistedSubstate::FunctionAccessRules(v) => mix_step(
            mix_step(0, 12),
            if v.default_allow {
                1
            } else {
                0
            },
        ),
        PersistedSubstate::Account(v) => mix_step(
            mix_step(
                mix_step(mix_step(0, 13), v.vaults_store.kind as u64),
                v.vaults_store.hash_part,
            ),
            v.vaults_store.index as u64,
        ),
        PersistedSubstate::AccessController(v) => mix_step(
            mix_step(
                mix_step(
                    mix_step(mix_step(0, 14), v.controlled_vault.kind as u64),
                    v.controlled_vault.hash_part,
                ),
                v.controlled_vault.index as u64,
            ),
            if v.is_primary_role_locked {
                1
            } else {
                0
            },
        ),
        PersistedSubstate::FungibleVaultInfo(v) => mix_step(mix_step(0, 15), v.divisibility as u64),
        PersistedSubstate::NonFungibleVaultInfo(v) => mix_step(
            mix_step(0, 16),
            match v.id_type {
                NonFungibleIdType::Integer => 1u64,
                NonFungibleIdType::Bytes => 2u64,
            },
        ),
        PersistedSubstate::VaultLiquidFungible(v) => digest_amount_from(
            mix_step(0, 17),
            v.amount_units,
        ),
        PersistedSubstate::VaultLiquidNonFungible(v) => digest_words_from(
            mix_step(0, 18),
            &v.ids.elems,
        ),
        PersistedSubstate::VaultLockedFungible(v) => digest_amount_from(
            mix_step(0, 19),
            v.amount_units,
        ),
        PersistedSubstate::VaultLockedNonFungible(v) => digest_words_from(
            mix_step(0, 20),
            &v.ids.elems,
        ),
        PersistedSubstate::TypeInfo(v) => match v {
            TypeInfoSubstate::KeyValueStore => mix_step(mix_step(0, 21), 1),
            TypeInfoSubstate::Object(info) => digest_type_info_from(
                mix_step(mix_step(0, 21), 2),
                info,
            ),
        },
        PersistedSubstate::MethodAccessRules(v) => mix_step(
            mix_step(0, 22),
            if v.default_allow {
                1
            } else {
                0
            },
        ),
        PersistedSubstate::ComponentRoyaltyConfig(v) => mix_step(mix_step(0, 23), v.royalty_rate),
        PersistedSubstate::ComponentRoyaltyAccumulator(v) => match v.royalty_vault {
            Some(o) => mix_step(
                mix_step(mix_step(mix_step(0, 24), o.kind as u64), o.hash_part),
                o.index as u64,
            ),
            None => mix_step(mix_step(0, 24), 0),
        },
        PersistedSubstate::KeyValueStoreEntry(v) => match v {
            Some(value) => digest_value_from(mix_step(mix_step(0, 25), 1), value),
            None => mix_step(mix_step(0, 25), 0),
        },
        PersistedSubstate::IterableEntry(v) => digest_value_from(mix_step(0, 26), v),
    };
    Digest { hi: d, lo: mix_step(d, DIGEST_PRIME) }
}

} // verus!
