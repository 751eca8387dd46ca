//! Balance-change accounting helpers: computing one vault's net change and
//! pruning no-op entries, so the final per-resource summary never shows a
//! vault that ended where it started.

use vstd::prelude::*;
use crate::addressing::{Address, NodeModuleId, ObjectId, RENodeId, ResourceAddress, SubstateId,
    SubstateIdAbs, SubstateOffset, SubstateOffsetAbs, TypeInfoOffset, VaultOffset};
use crate::collections::{EqKey, OrderedMap};
use crate::decimal::Decimal;
use crate::receipt::BalanceChange;
use crate::resources::{remove_intersection, IdSet, LiquidNonFungibleResource};
use crate::store::ReadableSubstateStore;
use crate::substates::{BlueprintName, PersistedSubstate, SubstateAbs, TypeInfoSubstate};

verus! {

/// A balance change that says nothing: a zero fungible delta, or an empty
/// non-fungible symmetric difference.
pub open spec fn is_noop_change(c: BalanceChange) -> bool {
    match c {
        BalanceChange::Fungible(d) => d.units == 0,
        BalanceChange::NonFungible { added, removed } => (forall|y: u64|
            added.contains_id(y) ==> removed.contains_id(y)) && (forall|y: u64|
            removed.contains_id(y) ==> added.contains_id(y)),
    }
}

/// The net change of a fungible vault: new liquid amount minus old.
pub fn fungible_balance_change(old_amount: Decimal, new_amount: Decimal) -> (r: BalanceChange)
    requires
        i128::MIN <= new_amount.units - old_amount.units <= i128::MAX,
    ensures
        r == BalanceChange::Fungible(Decimal { units: (new_amount.units - old_amount.units) as i128 }),
        old_amount == new_amount ==> is_noop_change(r),
{
    BalanceChange::Fungible(new_amount.sub(old_amount))
}

/// Whether one id set is contained in another.
fn idset_subset(a: &IdSet, b: &IdSet) -> (r: bool)
    ensures
        r == forall|y: u64| a.contains_id(y) ==> b.contains_id(y),
{
    let n = a.elems.len();
    let mut i: usize = 0;
    while i < n
        invariant
            n == a.elems@.len(),
            i <= n,
            forall|j: int| 0 <= j < i ==> b.contains_id(#[trigger] a.elems@[j]),
        decreases n - i,
    {
        if !b.contains(a.elems[i]) {
            proof {
                assert(a.contains_id(a.elems@[i as int]));
            }
            return false;
        }
        i = i + 1;
    }
    proof {
        assert forall|y: u64| a.contains_id(y) implies b.contains_id(y) by {
            let j = choose|j: int| 0 <= j < a.elems@.len() && a.elems@[j] == y;
            assert(b.contains_id(a.elems@[j]));
        }
    }
    true
}

/// Decides whether a balance change says nothing.
pub fn is_noop(c: &BalanceChange) -> (r: bool)
    ensures
        r == is_noop_change(*c),
{
    match c {
        BalanceChange::Fungible(d) => d.is_zero(),
        BalanceChange::NonFungible { added, removed } => idset_subset(added, removed)
            && idset_subset(removed, added),
    }
}

/// Prunes one resource-to-change map: entries whose change nets to nothing —
/// a zero fungible delta, or non-fungible additions and removals that cancel
/// out exactly — are dropped; every other entry is kept as it is.
pub fn prune_resource_changes(changes: OrderedMap<ResourceAddress, BalanceChange>) -> (r:
    OrderedMap<ResourceAddress, BalanceChange>)
    requires
        changes.wf(),
    ensures
        r.wf(),
        forall|a: ResourceAddress|
            #[trigger] r.contains_abs(a) ==> changes.contains_abs(a) && !is_noop_change(
                changes.at_abs(a),
            ),
        forall|a: ResourceAddress|
            #[trigger] changes.contains_abs(a) && !is_noop_change(changes.at_abs(a))
                ==> r.contains_abs(a),
        forall|a: ResourceAddress|
            #[trigger] r.contains_abs(a) ==> r.at_abs(a) == changes.at_abs(a),
{
    let ghost src = changes.entries();
    let mut kept: OrderedMap<ResourceAddress, BalanceChange> = OrderedMap::new();
    let mut pairs = changes.pairs;
    let n = pairs.len();
    let mut i: usize = 0;
    while i < n
        invariant
            n == src.len(),
            i <= n,
            pairs@ == src.skip(i as int),
            forall|a: int, b: int|
                0 <= a < b < src.len() ==> (#[trigger] src[a]).0.key() != (
                #[trigger] src[b]).0.key(),
            kept.wf(),
            forall|a: ResourceAddress|
                #[trigger] kept.contains_abs(a) ==> exists|j: int|
                    0 <= j < i && (#[trigger] src[j]).0 == a,
            forall|j: int|
                0 <= j < i ==> ((#[trigger] kept.contains_abs(src[j].0)) <==> !is_noop_change(
                    src[j].1,
                )),
            forall|j: int|
                0 <= j < i && kept.contains_abs((#[trigger] src[j]).0) ==> kept.at_abs(src[j].0)
                    == src[j].1,
        decreases n - i,
    {
        let ghost kept0 = kept;
        let pair = pairs.remove(0);
        proof {
            assert(src.skip(i as int)[0] == src[i as int]);
            assert(src.skip(i as int).remove(0) =~= src.skip(i + 1));
            if kept.contains_abs(pair.0) {
                let j = choose|j: int| 0 <= j < i && (#[trigger] src[j]).0 == pair.0;
                assert(src[j].0.key() == src[i as int].0.key());
            }
        }
        let (address, change) = pair;
        if !is_noop(&change) {
            kept.push_new(address, change);
        }
        proof {
            assert forall|j: int|
                0 <= j < i + 1 implies ((#[trigger] kept.contains_abs(src[j].0))
                <==> !is_noop_change(src[j].1)) by {
                if j < i {
                    assert(src[j].0.key() != src[i as int].0.key());
                    assert(kept.contains_abs(src[j].0) == kept0.contains_abs(src[j].0));
                }
            }
            assert forall|j: int|
                0 <= j < i + 1 && kept.contains_abs((#[trigger] src[j]).0) implies kept.at_abs(
                src[j].0,
            ) == src[j].1 by {
                if j < i {
                    assert(src[j].0.key() != src[i as int].0.key());
                }
            }
        }
        i = i + 1;
    }
    proof {
        assert forall|a: ResourceAddress| #[trigger] kept.contains_abs(a) implies
            changes.contains_abs(a) && !is_noop_change(changes.at_abs(a)) && kept.at_abs(a)
                == changes.at_abs(a) by {
            let j = choose|j: int| 0 <= j < n && (#[trigger] src[j]).0 == a;
            changes.lemma_index_unique(j);
        }
        assert forall|a: ResourceAddress|
            #[trigger] changes.contains_abs(a) && !is_noop_change(changes.at_abs(a)) implies
            kept.contains_abs(a) by {
            let j = changes.index_of_abs(a);
            changes.lemma_index_unique(j);
            assert(src[j].0 == a);
        }
    }
    kept
}

/// Balance-change pruning: a vault that was put into and taken back out for
/// the identical amount nets to zero and never appears in the pruned map.
pub proof fn lemma_net_zero_pruned(
    changes: OrderedMap<ResourceAddress, BalanceChange>,
    pruned: OrderedMap<ResourceAddress, BalanceChange>,
    a: ResourceAddress,
)
    requires
        changes.contains_abs(a),
        changes.at_abs(a) == BalanceChange::Fungible(Decimal { units: 0 }),
        forall|q: ResourceAddress|
            #[trigger] pruned.contains_abs(q) ==> changes.contains_abs(q) && !is_noop_change(
                changes.at_abs(q),
            ),
    ensures
        !pruned.contains_abs(a),
{
}

/// The key of one substate of a transaction-local vault object.
pub open spec fn vault_substate_id(vault: ObjectId, offset: SubstateOffsetAbs) -> SubstateIdAbs {
    SubstateIdAbs { node_id: RENodeId::Object(vault), module_id: NodeModuleId::SELF, offset }
}

/// What the dirty updates or, failing them, the store hold under a key.
pub open spec fn lookup_substate<S: ReadableSubstateStore>(
    store: &S,
    updates: &OrderedMap<SubstateId, (PersistedSubstate, Option<u32>)>,
    id: SubstateIdAbs,
) -> Option<SubstateAbs> {
    if updates.contains_abs(id) {
        Some(updates.at_abs(id).0.abs())
    } else if store.substates_view().contains_key(id) {
        Some(store.substates_view()[id].substate)
    } else {
        None
    }
}

/// The package every genuine vault blueprint belongs to: a vault is only
/// recognised when its type information names a vault blueprint of this
/// package.
pub const RESOURCE_MANAGER_PACKAGE_ID: u128 = 2;

/// A vault's identity, read structurally from its type information: the
/// resource it belongs to and whether it is fungible. `None` when the node
/// is no vault, or its blueprint is not a vault blueprint of the resource
/// manager package.
pub open spec fn spec_vault_info<S: ReadableSubstateStore>(
    store: &S,
    updates: &OrderedMap<SubstateId, (PersistedSubstate, Option<u32>)>,
    vault: ObjectId,
) -> Option<(ResourceAddress, bool)> {
    match lookup_substate(
        store,
        updates,
        SubstateIdAbs {
            node_id: RENodeId::Object(vault),
            module_id: NodeModuleId::TypeInfo,
            offset: SubstateOffsetAbs::TypeInfo(TypeInfoOffset::TypeInfo),
        },
    ) {
        Some(SubstateAbs::TypeInfo(TypeInfoSubstate::Object(info))) => match info.type_parent {
            Some(Address::Resource(r)) => if info.blueprint.package_address
                != crate::addressing::PackageAddress::Normal(RESOURCE_MANAGER_PACKAGE_ID) {
                None
            } else if info.blueprint.blueprint_name == BlueprintName::FungibleVault {
                Some((r, true))
            } else if info.blueprint.blueprint_name == BlueprintName::NonFungibleVault {
                Some((r, false))
            } else {
                None
            },
            _ => None,
        },
        _ => None,
    }
}

/// Fetches a substate's content from the dirty updates or, failing them,
/// the store.
fn fetch_substate<S: ReadableSubstateStore>(
    store: &S,
    updates: &OrderedMap<SubstateId, (PersistedSubstate, Option<u32>)>,
    id: &SubstateId,
) -> (r: Option<PersistedSubstate>)
    requires
        store.store_inv(),
        updates.wf(),
        !(id.abs().offset is IterableMap),
    ensures
        match r {
            Some(s) => lookup_substate(store, updates, id.abs()) == Some(s.abs()),
            None => lookup_substate(store, updates, id.abs()) is None,
        },
{
    match updates.get_ref(id) {
        Some(pair) => Some(pair.0.duplicate()),
        None => match store.get_substate(id) {
            Some(v) => Some(v.substate),
            None => None,
        },
    }
}

/// Reads a vault's identity structurally: its resource and fungibility, as
/// the type information declares them.
pub fn vault_info<S: ReadableSubstateStore>(
    store: &S,
    updates: &OrderedMap<SubstateId, (PersistedSubstate, Option<u32>)>,
    vault: ObjectId,
) -> (r: Option<(ResourceAddress, bool)>)
    requires
        store.store_inv(),
        updates.wf(),
    ensures
        r == spec_vault_info(store, updates, vault),
{
    let id = SubstateId(
        RENodeId::Object(vault),
        NodeModuleId::TypeInfo,
        SubstateOffset::TypeInfo(TypeInfoOffset::TypeInfo),
    );
    match fetch_substate(store, updates, &id) {
        Some(PersistedSubstate::TypeInfo(TypeInfoSubstate::Object(info))) => match info
            .type_parent {
            Some(Address::Resource(r)) => {
                if info.blueprint.package_address != crate::addressing::PackageAddress::Normal(
                    RESOURCE_MANAGER_PACKAGE_ID,
                ) {
                    None
                } else if info.blueprint.blueprint_name == BlueprintName::FungibleVault {
                    Some((r, true))
                } else if info.blueprint.blueprint_name == BlueprintName::NonFungibleVault {
                    Some((r, false))
                } else {
                    None
                }
            },
            _ => None,
        },
        _ => None,
    }
}

/// The updated liquid row of a fungible vault is a fungible amount, and the
/// store side it is compared against exists and is one too.
pub open spec fn fungible_change_ready<S: ReadableSubstateStore>(
    store: &S,
    updates: &OrderedMap<SubstateId, (PersistedSubstate, Option<u32>)>,
    vault: ObjectId,
) -> bool {
    let id = vault_substate_id(vault, SubstateOffsetAbs::Vault(VaultOffset::LiquidFungible));
    updates.contains_abs(id) ==> {
        let (new_row, old_version) = updates.at_abs(id);
        &&& new_row.abs() matches SubstateAbs::VaultLiquidFungible(n) && 0 <= n.amount_units.units
            < crate::fees::AMOUNT_BOUND
        &&& (old_version is Some ==> {
            &&& store.substates_view().contains_key(id)
            &&& store.substates_view()[id].substate matches SubstateAbs::VaultLiquidFungible(o)
                && 0 <= o.amount_units.units < crate::fees::AMOUNT_BOUND
        })
    }
}

/// The updated liquid row of a non-fungible vault holds a well-formed id
/// set, and so does the store side it is compared against.
pub open spec fn non_fungible_change_ready<S: ReadableSubstateStore>(
    store: &S,
    updates: &OrderedMap<SubstateId, (PersistedSubstate, Option<u32>)>,
    vault: ObjectId,
) -> bool {
    let id = vault_substate_id(vault, SubstateOffsetAbs::Vault(VaultOffset::LiquidNonFungible));
    updates.contains_abs(id) ==> {
        let (new_row, old_version) = updates.at_abs(id);
        &&& new_row is VaultLiquidNonFungible
        &&& new_row->VaultLiquidNonFungible_0.ids.wf()
        &&& (old_version is Some ==> {
            &&& store.substates_view().contains_key(id)
            &&& store.substates_view()[id].substate matches SubstateAbs::VaultLiquidNonFungible(
                old_ids,
            ) && (forall|i: int, j: int|
                0 <= i < j < old_ids.len() ==> old_ids[i] < old_ids[j])
        })
    }
}


/// Whether `entry` is exactly the net change of `vault` under the dirty
/// updates: a fungible delta of new minus old, or the two-sided non-fungible
/// symmetric difference.
pub open spec fn change_matches<S: ReadableSubstateStore>(
    store: &S,
    updates: &OrderedMap<SubstateId, (PersistedSubstate, Option<u32>)>,
    vault: ObjectId,
    entry: (ResourceAddress, BalanceChange),
) -> bool {
    let (resource, fungible) = spec_vault_info(store, updates, vault)->Some_0;
    if fungible {
        let id = vault_substate_id(vault, SubstateOffsetAbs::Vault(VaultOffset::LiquidFungible));
        let (new_row, old_version) = updates.at_abs(id);
        let new_amount = new_row.abs()->VaultLiquidFungible_0.amount_units.units;
        let old_amount = if old_version is None {
            0int
        } else {
            store.substates_view()[id].substate->VaultLiquidFungible_0.amount_units.units as int
        };
        entry == (
            resource,
            BalanceChange::Fungible(Decimal { units: (new_amount - old_amount) as i128 }),
        )
    } else {
        let id = vault_substate_id(
            vault,
            SubstateOffsetAbs::Vault(VaultOffset::LiquidNonFungible),
        );
        let new_ids = updates.at_abs(id).0->VaultLiquidNonFungible_0.ids;
        &&& entry.1 matches BalanceChange::NonFungible { added, removed }
        &&& entry.0 == resource
        &&& (forall|y: u64|
            added.contains_id(y) <==> (new_ids.contains_id(y) && !spec_old_ids_contain(
                store,
                updates,
                vault,
                y,
            )))
        &&& (forall|y: u64|
            removed.contains_id(y) <==> (spec_old_ids_contain(store, updates, vault, y)
                && !new_ids.contains_id(y)))
    }
}

/// Whether `vault` has a liquid-row update at all (for its own kind).
pub open spec fn has_liquid_update<S: ReadableSubstateStore>(
    store: &S,
    updates: &OrderedMap<SubstateId, (PersistedSubstate, Option<u32>)>,
    vault: ObjectId,
) -> bool {
    let (resource, fungible) = spec_vault_info(store, updates, vault)->Some_0;
    if fungible {
        updates.contains_abs(
            vault_substate_id(vault, SubstateOffsetAbs::Vault(VaultOffset::LiquidFungible)),
        )
    } else {
        updates.contains_abs(
            vault_substate_id(vault, SubstateOffsetAbs::Vault(VaultOffset::LiquidNonFungible)),
        )
    }
}


/// Whether one vault's net change is defined at all: the node's type
/// information declares a vault, the liquid rows match the declared kind and
/// stay within the amount bounds, and the liquid row was touched. Audit-level
/// accounting never fails: anything else simply yields no change.
pub open spec fn vault_change_defined<S: ReadableSubstateStore>(
    store: &S,
    updates: &OrderedMap<SubstateId, (PersistedSubstate, Option<u32>)>,
    vault: ObjectId,
) -> bool {
    match spec_vault_info(store, updates, vault) {
        Some((resource, fungible)) => if fungible {
            &&& fungible_change_ready(store, updates, vault)
            &&& updates.contains_abs(
                vault_substate_id(vault, SubstateOffsetAbs::Vault(VaultOffset::LiquidFungible)),
            )
        } else {
            &&& non_fungible_change_ready(store, updates, vault)
            &&& updates.contains_abs(
                vault_substate_id(
                    vault,
                    SubstateOffsetAbs::Vault(VaultOffset::LiquidNonFungible),
                ),
            )
        },
        None => false,
    }
}

/// The net change of one vault, computed from the dirty updates against the
/// store: `None` when the vault's liquid row was never touched; a fungible
/// delta of new minus old (old being zero for a brand-new vault, else the
/// stored amount); for a non-fungible vault the added and removed id sets
/// with their intersection struck from both sides. A fungible amount outside
/// `[0, AMOUNT_BOUND)` — negative, or at least 2^96 — is no well-formed vault
/// balance, and such a row is skipped (`None`) rather than reported, so the
/// reported delta always fits the decimal without overflow.
pub fn calculate_vault_balance_change<S: ReadableSubstateStore>(
    store: &S,
    updates: &OrderedMap<SubstateId, (PersistedSubstate, Option<u32>)>,
    vault: ObjectId,
) -> (r: Option<(ResourceAddress, BalanceChange)>)
    requires
        store.store_inv(),
        updates.wf(),
    ensures
        r is Some <==> vault_change_defined(store, updates, vault),
        r matches Some(entry) ==> change_matches(store, updates, vault, entry),
        r matches Some((res, BalanceChange::NonFungible { added, removed })) ==> added.wf()
            && removed.wf(),
{
    let (resource, fungible) = match vault_info(store, updates, vault) {
        Some(info) => info,
        None => {
            return None;
        },
    };
    if fungible {
        let liquid_id = SubstateId(
            RENodeId::Object(vault),
            NodeModuleId::SELF,
            SubstateOffset::Vault(VaultOffset::LiquidFungible),
        );
        match updates.get_ref(&liquid_id) {
            None => None,
            Some(pair) => {
                let new_amount = match &pair.0 {
                    PersistedSubstate::VaultLiquidFungible(v) => v.amount_units,
                    _ => {
                        return None;
                    },
                };
                if new_amount.is_negative() || !new_amount.lt(
                    &Decimal { units: crate::fees::AMOUNT_BOUND },
                ) {
                    return None;
                }
                let old_amount: Decimal = match pair.1 {
                    None => Decimal::zero(),
                    Some(_) => match store.get_substate(&liquid_id) {
                        Some(stored) => match stored.substate {
                            PersistedSubstate::VaultLiquidFungible(v) => v.amount_units,
                            _ => {
                                return None;
                            },
                        },
                        None => {
                            return None;
                        },
                    },
                };
                if old_amount.is_negative() || !old_amount.lt(
                    &Decimal { units: crate::fees::AMOUNT_BOUND },
                ) {
                    return None;
                }
                Some((resource, BalanceChange::Fungible(new_amount.sub(old_amount))))
            },
        }
    } else {
        let liquid_id = SubstateId(
            RENodeId::Object(vault),
            NodeModuleId::SELF,
            SubstateOffset::Vault(VaultOffset::LiquidNonFungible),
        );
        match updates.get_ref(&liquid_id) {
            None => None,
            Some(pair) => {
                let mut new_ids = match &pair.0 {
                    PersistedSubstate::VaultLiquidNonFungible(v) => IdSet {
                        elems: v.ids.elems.clone(),
                    },
                    _ => {
                        return None;
                    },
                };
                if !new_ids.is_sorted() {
                    return None;
                }
                proof {
                    assert(new_ids.elems@ =~= pair.0->VaultLiquidNonFungible_0.ids.elems@);
                }
                let ghost id = liquid_id.abs();
                let mut old_ids: IdSet = match pair.1 {
                    None => IdSet::new(),
                    Some(_) => match store.get_substate(&liquid_id) {
                        Some(stored) => {
                            proof {
                                assert(stored.abs().substate
                                    == store.substates_view()[id].substate);
                            }
                            match stored.substate {
                                PersistedSubstate::VaultLiquidNonFungible(v) => v.ids,
                                _ => {
                                    proof {
                                        assert(!(stored.substate.abs()
                                            is VaultLiquidNonFungible));
                                        assert(store.substates_view()[id].substate
                                            == stored.substate.abs());
                                        assert(updates.contains_abs(id));
                                        assert(updates.at_abs(id).1 is Some);
                                        assert(!non_fungible_change_ready(
                                            store,
                                            updates,
                                            vault,
                                        ));
                                        assert(!vault_change_defined(store, updates, vault));
                                    }
                                    return None;
                                },
                            }
                        },
                        None => {
                            return None;
                        },
                    },
                };
                proof {
                    if pair.1 is Some {
                        assert(old_ids.elems@ == store.substates_view()[id].substate
                            ->VaultLiquidNonFungible_0);
                    }
                }
                if !old_ids.is_sorted() {
                    proof {
                        assert(pair.1 is Some);
                        assert(!non_fungible_change_ready(store, updates, vault));
                    }
                    return None;
                }
                proof {
                    assert(old_ids.wf());
                    assert forall|y: u64|
                        old_ids.contains_id(y) == spec_old_ids_contain(
                        store,
                        updates,
                        vault,
                        y,
                    ) by {}
                }
                remove_intersection(&mut new_ids, &mut old_ids);
                Some((resource, BalanceChange::NonFungible { added: new_ids, removed: old_ids }))
            },
        }
    }
}

/// Whether the old (stored) id set of a non-fungible vault held one id: the
/// empty set when the vault is brand-new, else the store's set.
pub open spec fn spec_old_ids_contain<S: ReadableSubstateStore>(
    store: &S,
    updates: &OrderedMap<SubstateId, (PersistedSubstate, Option<u32>)>,
    vault: ObjectId,
    y: u64,
) -> bool {
    let id = vault_substate_id(vault, SubstateOffsetAbs::Vault(VaultOffset::LiquidNonFungible));
    &&& updates.at_abs(id).1 is Some
    &&& store.substates_view()[id].substate->VaultLiquidNonFungible_0.contains(y)
}

/// How many dirty substates one transaction may carry into the accountant.
pub const MAX_DIRTY_SUBSTATES: usize = 0x100000;

/// Every non-fungible change in the map carries well-formed id sets.
pub open spec fn changes_wf(m: OrderedMap<ResourceAddress, BalanceChange>) -> bool {
    &&& m.wf()
    &&& forall|i: int|
        0 <= i < m.entries().len() ==> match (#[trigger] m.entries()[i]).1 {
            BalanceChange::Fungible(_) => true,
            BalanceChange::NonFungible { added, removed } => added.wf() && removed.wf(),
        }
}

/// The sum of two amounts, clamped at the amount type's ends.
pub open spec fn clamped_sum(a: Decimal, b: Decimal) -> Decimal {
    if a.units + b.units > i128::MAX {
        Decimal { units: i128::MAX }
    } else if a.units + b.units < i128::MIN {
        Decimal { units: i128::MIN }
    } else {
        Decimal { units: (a.units + b.units) as i128 }
    }
}


/// Whether any dirty substate belongs to `node`.
pub open spec fn node_touched(
    updates: &OrderedMap<SubstateId, (PersistedSubstate, Option<u32>)>,
    node: RENodeId,
) -> bool {
    exists|i: int|
        0 <= i < updates.entries().len() && (#[trigger] updates.entries()[i]).0.abs().node_id
            == node
}

/// Whether `node` is a vault object by its type information.
pub open spec fn is_vault_node<S: ReadableSubstateStore>(
    store: &S,
    updates: &OrderedMap<SubstateId, (PersistedSubstate, Option<u32>)>,
    node: RENodeId,
) -> bool {
    node matches RENodeId::Object(v) && spec_vault_info(store, updates, v) is Some
}

/// Whether some dirty substate of `parent` owns `child`.
pub open spec fn owns_edge(
    updates: &OrderedMap<SubstateId, (PersistedSubstate, Option<u32>)>,
    parent: RENodeId,
    child: RENodeId,
) -> bool {
    exists|i: int|
        0 <= i < updates.entries().len() && (#[trigger] updates.entries()[i]).0.abs().node_id
            == parent && crate::substates::spec_owned_nodes(
            updates.entries()[i].1.0.abs(),
        ).contains(child)
}

/// Whether the downward walk from `node`, stepping through touched nodes
/// along the updates' ownership edges with the given fuel, credits vault
/// `v`: it does when it reaches the vault's node before the fuel runs out.
pub open spec fn walk_credits<S: ReadableSubstateStore>(
    store: &S,
    updates: &OrderedMap<SubstateId, (PersistedSubstate, Option<u32>)>,
    node: RENodeId,
    fuel: nat,
    v: ObjectId,
) -> bool
    decreases fuel,
{
    if fuel == 0 {
        false
    } else if !node_touched(updates, node) {
        false
    } else if is_vault_node(store, updates, node) {
        node == RENodeId::Object(v)
    } else {
        exists|child: RENodeId|
            #[trigger] owns_edge(updates, node, child) && walk_credits(
                store,
                updates,
                child,
                (fuel - 1) as nat,
                v,
            )
    }
}

/// Some dirty substate of `node` at an index below `j` owns a child whose
/// walk credits `v`.
pub open spec fn edge_credits<S: ReadableSubstateStore>(
    store: &S,
    updates: &OrderedMap<SubstateId, (PersistedSubstate, Option<u32>)>,
    node: RENodeId,
    fuel: nat,
    i2: int,
    v: ObjectId,
) -> bool {
    &&& 0 <= i2 < updates.entries().len()
    &&& updates.entries()[i2].0.abs().node_id == node
    &&& exists|c: RENodeId|
        crate::substates::spec_owned_nodes(updates.entries()[i2].1.0.abs()).contains(c)
            && walk_credits(store, updates, c, fuel, v)
}

/// The walk fuel used by the accountant: one more than the number of dirty
/// substates, which covers every acyclic ownership chain through them.
pub open spec fn walk_fuel(
    updates: &OrderedMap<SubstateId, (PersistedSubstate, Option<u32>)>,
) -> nat {
    if updates.entries().len() + 1 <= u64::MAX {
        (updates.entries().len() + 1) as nat
    } else {
        u64::MAX as nat
    }
}

/// The resource a vault belongs to.
pub open spec fn vault_resource<S: ReadableSubstateStore>(
    store: &S,
    updates: &OrderedMap<SubstateId, (PersistedSubstate, Option<u32>)>,
    v: ObjectId,
) -> ResourceAddress {
    spec_vault_info(store, updates, v)->Some_0.0
}

/// Folds one vault's change into a per-resource accumulator: fungible deltas
/// add (clamping at the amount type's ends), non-fungible sets union. A
/// change whose kind disagrees with the accumulated one is ignored, as only
/// inconsistent type information could produce it.
fn merge_change(
    acc: &mut OrderedMap<ResourceAddress, BalanceChange>,
    resource: ResourceAddress,
    change: BalanceChange,
)
    requires
        changes_wf(*old(acc)),
        change matches BalanceChange::NonFungible { added, removed } ==> added.wf()
            && removed.wf(),
    ensures
        changes_wf(*final(acc)),
        final(acc).contains_abs(resource),
        forall|q: ResourceAddress|
            q != resource ==> #[trigger] final(acc).contains_abs(q) == old(acc).contains_abs(q),
        forall|q: ResourceAddress|
            q != resource && old(acc).contains_abs(q) ==> #[trigger] final(acc).at_abs(q) == old(
                acc,
            ).at_abs(q),
        !old(acc).contains_abs(resource) ==> final(acc).at_abs(resource) == change,
        old(acc).contains_abs(resource) ==> match (old(acc).at_abs(resource), change) {
            (BalanceChange::Fungible(a), BalanceChange::Fungible(b)) => final(acc).at_abs(resource)
                == BalanceChange::Fungible(clamped_sum(a, b)),
            (
                BalanceChange::NonFungible { added: a1, removed: r1 },
                BalanceChange::NonFungible { added: a2, removed: r2 },
            ) => {
                &&& final(acc).at_abs(resource) matches BalanceChange::NonFungible {
                    added,
                    removed,
                }
                &&& (forall|y: u64|
                    added.contains_id(y) <==> (a1.contains_id(y) || a2.contains_id(y)))
                &&& (forall|y: u64|
                    removed.contains_id(y) <==> (r1.contains_id(y) || r2.contains_id(y)))
            },
            _ => final(acc).at_abs(resource) == old(acc).at_abs(resource),
        },
{
    let ghost pre = *acc;
    match acc.index_of(&resource) {
        None => {
            acc.push_new(resource, change);
            proof {
                assert forall|i: int|
                    0 <= i < acc.entries().len() implies match (#[trigger] acc.entries()[i]).1 {
                    BalanceChange::Fungible(_) => true,
                    BalanceChange::NonFungible { added, removed } => added.wf() && removed.wf(),
                } by {
                    if i < pre.entries().len() {
                        assert(acc.entries()[i] == pre.entries()[i]);
                    }
                }
            }
        },
        Some(i) => {
            proof {
                pre.lemma_index_unique(i as int);
            }
            let merged: Option<BalanceChange> = match (acc.value_at(i), &change) {
                (BalanceChange::Fungible(a), BalanceChange::Fungible(b)) => {
                    let sum: i128 = match a.units.checked_add(b.units) {
                        Some(u) => u,
                        None => if b.units > 0 {
                            i128::MAX
                        } else {
                            i128::MIN
                        },
                    };
                    Some(BalanceChange::Fungible(Decimal { units: sum }))
                },
                (
                    BalanceChange::NonFungible { added: a1, removed: r1 },
                    BalanceChange::NonFungible { added: a2, removed: r2 },
                ) => {
                    let mut added = IdSet { elems: a1.elems.clone() };
                    let mut removed = IdSet { elems: r1.elems.clone() };
                    proof {
                        assert(added.elems@ =~= a1.elems@);
                        assert(removed.elems@ =~= r1.elems@);
                        assert(pre.entries()[i as int].1 matches BalanceChange::NonFungible {
                            added: pa,
                            removed: pr,
                        } && pa.wf() && pr.wf());
                    }
                    added.extend(a2);
                    removed.extend(r2);
                    Some(BalanceChange::NonFungible { added, removed })
                },
                _ => None,
            };
            match merged {
                Some(m) => {
                    acc.set_value_at(i, m);
                    proof {
                        assert forall|j: int|
                            0 <= j < acc.entries().len() implies match (
                        #[trigger] acc.entries()[j]).1 {
                            BalanceChange::Fungible(_) => true,
                            BalanceChange::NonFungible { added, removed } => added.wf()
                                && removed.wf(),
                        } by {
                            if j != i {
                                assert(acc.entries()[j] == pre.entries()[j]);
                            }
                        }
                    }
                },
                None => {},
            }
        },
    }
}

/// Walks the owned-node graph of the dirty updates downward from one node,
/// crediting every vault it reaches into the per-root accumulator; nodes the
/// transaction never touched end the walk, as do ownership chains longer
/// than the number of dirty substates.
#[verifier::rlimit(100)]
#[verifier::spinoff_prover]
fn traverse_state_updates<S: ReadableSubstateStore>(
    store: &S,
    updates: &OrderedMap<SubstateId, (PersistedSubstate, Option<u32>)>,
    acc: &mut OrderedMap<ResourceAddress, BalanceChange>,
    accounted_vaults: &mut Vec<ObjectId>,
    node: RENodeId,
    fuel: u64,
)
    requires
        store.store_inv(),
        updates.wf(),
        changes_wf(*old(acc)),
    ensures
        changes_wf(*final(acc)),
        final(accounted_vaults)@.len() >= old(accounted_vaults)@.len(),
        forall|t: int|
            0 <= t < old(accounted_vaults)@.len() ==> #[trigger] final(accounted_vaults)@[t]
                == old(accounted_vaults)@[t],
        forall|t: int|
            old(accounted_vaults)@.len() <= t < final(accounted_vaults)@.len()
                ==> walk_credits(
                store,
                updates,
                node,
                fuel as nat,
                #[trigger] final(accounted_vaults)@[t],
            ),
        forall|v: ObjectId|
            #[trigger] walk_credits(store, updates, node, fuel as nat, v)
                ==> final(accounted_vaults)@.contains(v),
        forall|v: ObjectId|
            #[trigger] walk_credits(store, updates, node, fuel as nat, v)
                && vault_change_defined(store, updates, v) ==> final(acc).contains_abs(
                vault_resource(store, updates, v),
            ),
        forall|q: ResourceAddress|
            #[trigger] old(acc).contains_abs(q) ==> final(acc).contains_abs(q),
    decreases fuel,
{
    if fuel == 0 {
        return ;
    }
    let n = updates.len();
    let mut touched = false;
    let mut i: usize = 0;
    while i < n
        invariant
            n == updates.entries().len(),
            i <= n,
            touched <==> exists|j: int|
                0 <= j < i && (#[trigger] updates.entries()[j]).0.abs().node_id == node,
        decreases n - i,
    {
        if updates.key_at(i).0 == node {
            proof {
                assert(updates.entries()[i as int].0.abs().node_id == node);
            }
            touched = true;
        }
        i = i + 1;
    }
    if !touched {
        proof {
            assert(!node_touched(updates, node));
        }
        return ;
    }
    match node {
        RENodeId::Object(obj) => {
            let is_vault = match vault_info(store, updates, obj) {
                Some(_) => true,
                None => false,
            };
            if is_vault {
                accounted_vaults.push(obj);
                proof {
                    assert(is_vault_node(store, updates, node));
                    assert forall|v: ObjectId|
                        #[trigger] walk_credits(store, updates, node, fuel as nat, v) implies v
                        == obj by {}
                    assert(walk_credits(store, updates, node, fuel as nat, obj));
                    assert(accounted_vaults@.last() == obj);
                }
                match calculate_vault_balance_change(store, updates, obj) {
                    Some((resource, change)) => {
                        proof {
                            assert(resource == vault_resource(store, updates, obj));
                        }
                        merge_change(acc, resource, change);
                    },
                    None => {},
                }
                return ;
            }
        },
        _ => {},
    }
    proof {
        assert(!is_vault_node(store, updates, node));
    }
    let ghost acc0 = *acc;
    let ghost accounted0 = accounted_vaults@;
    let ghost sub_fuel = (fuel - 1) as nat;
    let mut j: usize = 0;
    while j < n
        invariant
            store.store_inv(),
            updates.wf(),
            changes_wf(*acc),
            n == updates.entries().len(),
            j <= n,
            fuel >= 1,
            sub_fuel == (fuel - 1) as nat,
            node_touched(updates, node),
            !is_vault_node(store, updates, node),
            accounted_vaults@.len() >= accounted0.len(),
            forall|t: int|
                0 <= t < accounted0.len() ==> #[trigger] accounted_vaults@[t] == accounted0[t],
            forall|t: int|
                accounted0.len() <= t < accounted_vaults@.len() ==> walk_credits(
                    store,
                    updates,
                    node,
                    fuel as nat,
                    #[trigger] accounted_vaults@[t],
                ),
            forall|v: ObjectId, i2: int|
                i2 < j && #[trigger] edge_credits(store, updates, node, sub_fuel, i2, v)
                    ==> accounted_vaults@.contains(v),
            forall|v: ObjectId, i2: int|
                i2 < j && #[trigger] edge_credits(store, updates, node, sub_fuel, i2, v)
                    && vault_change_defined(store, updates, v) ==> acc.contains_abs(
                    vault_resource(store, updates, v),
                ),
            forall|q: ResourceAddress|
                #[trigger] acc0.contains_abs(q) ==> acc.contains_abs(q),
        decreases n - j,
    {
        if updates.key_at(j).0 == node {
            proof {
                assert(updates.entries()[j as int].0.abs().node_id == node);
            }
            let owned = updates.value_at(j).0.owned_nodes_list();
            let ghost owned_seq = owned@;
            let c = owned.len();
            let mut k: usize = 0;
            while k < c
                invariant
                    store.store_inv(),
                    updates.wf(),
                    changes_wf(*acc),
                    n == updates.entries().len(),
                    j < n,
                    fuel >= 1,
                    sub_fuel == (fuel - 1) as nat,
                    node_touched(updates, node),
                    !is_vault_node(store, updates, node),
                    updates.entries()[j as int].0.abs().node_id == node,
                    owned_seq == crate::substates::spec_owned_nodes(
                        updates.entries()[j as int].1.0.abs(),
                    ),
                    c == owned_seq.len(),
                    owned@ == owned_seq,
                    k <= c,
                    accounted_vaults@.len() >= accounted0.len(),
                    forall|t: int|
                        0 <= t < accounted0.len() ==> #[trigger] accounted_vaults@[t]
                            == accounted0[t],
                    forall|t: int|
                        accounted0.len() <= t < accounted_vaults@.len() ==> walk_credits(
                            store,
                            updates,
                            node,
                            fuel as nat,
                            #[trigger] accounted_vaults@[t],
                        ),
                    forall|v: ObjectId, i2: int|
                        i2 < j && #[trigger] edge_credits(store, updates, node, sub_fuel, i2, v)
                            ==> accounted_vaults@.contains(v),
                    forall|v: ObjectId, i2: int|
                        i2 < j && #[trigger] edge_credits(store, updates, node, sub_fuel, i2, v)
                            && vault_change_defined(store, updates, v) ==> acc.contains_abs(
                            vault_resource(store, updates, v),
                        ),
                    forall|v: ObjectId|
                        (exists|ci: int|
                            0 <= ci < k && walk_credits(
                                store,
                                updates,
                                #[trigger] owned_seq[ci],
                                sub_fuel,
                                v,
                            )) ==> accounted_vaults@.contains(v),
                    forall|v: ObjectId|
                        (exists|ci: int|
                            0 <= ci < k && walk_credits(
                                store,
                                updates,
                                #[trigger] owned_seq[ci],
                                sub_fuel,
                                v,
                            )) && vault_change_defined(store, updates, v) ==> acc.contains_abs(
                            vault_resource(store, updates, v),
                        ),
                    forall|q: ResourceAddress|
                        #[trigger] acc0.contains_abs(q) ==> acc.contains_abs(q),
                decreases c - k,
            {
                let ghost accounted_pre = accounted_vaults@;
                let ghost acc_pre = *acc;
                let child = owned[k];
                traverse_state_updates(store, updates, acc, accounted_vaults, child, fuel - 1);
                proof {
                    assert(owned_seq[k as int] == child);
                    assert(owned_seq.contains(child));
                    assert(owns_edge(updates, node, child));
                    assert forall|t: int|
                        accounted0.len() <= t < accounted_vaults@.len() implies walk_credits(
                        store,
                        updates,
                        node,
                        fuel as nat,
                        #[trigger] accounted_vaults@[t],
                    ) by {
                        if t < accounted_pre.len() {
                            assert(accounted_vaults@[t] == accounted_pre[t]);
                        } else {
                            assert(walk_credits(
                                store,
                                updates,
                                child,
                                sub_fuel,
                                accounted_vaults@[t],
                            ));
                        }
                    }
                    assert forall|v: ObjectId, i2: int|
                        i2 < j && #[trigger] edge_credits(store, updates, node, sub_fuel, i2, v)
                            implies accounted_vaults@.contains(v) by {
                        assert(accounted_pre.contains(v));
                        let t = choose|t: int|
                            0 <= t < accounted_pre.len() && accounted_pre[t] == v;
                        assert(accounted_vaults@[t] == v);
                    }
                    assert forall|v: ObjectId|
                        (exists|ci: int|
                            0 <= ci < k + 1 && walk_credits(
                                store,
                                updates,
                                #[trigger] owned_seq[ci],
                                sub_fuel,
                                v,
                            )) implies accounted_vaults@.contains(v) by {
                        let ci = choose|ci: int|
                            0 <= ci < k + 1 && walk_credits(
                                store,
                                updates,
                                #[trigger] owned_seq[ci],
                                sub_fuel,
                                v,
                            );
                        if ci < k {
                            assert(accounted_pre.contains(v));
                            let t = choose|t: int|
                                0 <= t < accounted_pre.len() && accounted_pre[t] == v;
                            assert(accounted_vaults@[t] == v);
                        }
                    }
                }
                k = k + 1;
            }
            proof {
                assert forall|v: ObjectId, i2: int|
                    i2 < j + 1 && #[trigger] edge_credits(store, updates, node, sub_fuel, i2, v)
                        implies accounted_vaults@.contains(v) by {
                    if i2 == j {
                        let cw = choose|cw: RENodeId|
                            crate::substates::spec_owned_nodes(
                                updates.entries()[j as int].1.0.abs(),
                            ).contains(cw) && walk_credits(store, updates, cw, sub_fuel, v);
                        let ci = choose|ci: int|
                            0 <= ci < owned_seq.len() && owned_seq[ci] == cw;
                        assert(walk_credits(store, updates, owned_seq[ci], sub_fuel, v));
                    }
                }
                assert forall|v: ObjectId, i2: int|
                    i2 < j + 1 && #[trigger] edge_credits(store, updates, node, sub_fuel, i2, v)
                        && vault_change_defined(store, updates, v) implies acc.contains_abs(
                    vault_resource(store, updates, v),
                ) by {
                    if i2 == j {
                        let cw = choose|cw: RENodeId|
                            crate::substates::spec_owned_nodes(
                                updates.entries()[j as int].1.0.abs(),
                            ).contains(cw) && walk_credits(store, updates, cw, sub_fuel, v);
                        let ci = choose|ci: int|
                            0 <= ci < owned_seq.len() && owned_seq[ci] == cw;
                        assert(walk_credits(store, updates, owned_seq[ci], sub_fuel, v));
                    }
                }
            }
        } else {
            proof {
                assert forall|v: ObjectId, i2: int|
                    i2 < j + 1 && #[trigger] edge_credits(store, updates, node, sub_fuel, i2, v)
                        implies accounted_vaults@.contains(v) by {
                    if i2 == j {
                        assert(updates.entries()[j as int].0.abs().node_id != node);
                    }
                }
                assert forall|v: ObjectId, i2: int|
                    i2 < j + 1 && #[trigger] edge_credits(store, updates, node, sub_fuel, i2, v)
                        && vault_change_defined(store, updates, v) implies acc.contains_abs(
                    vault_resource(store, updates, v),
                ) by {
                    if i2 == j {
                        assert(updates.entries()[j as int].0.abs().node_id != node);
                    }
                }
            }
        }
        j = j + 1;
    }
    proof {
        assert forall|v: ObjectId|
            #[trigger] walk_credits(store, updates, node, fuel as nat, v) implies
            accounted_vaults@.contains(v) by {
            let child = choose|child: RENodeId|
                #[trigger] owns_edge(updates, node, child) && walk_credits(
                    store,
                    updates,
                    child,
                    sub_fuel,
                    v,
                );
            let i2 = choose|i2: int|
                0 <= i2 < updates.entries().len() && (
                #[trigger] updates.entries()[i2]).0.abs().node_id == node
                    && crate::substates::spec_owned_nodes(
                    updates.entries()[i2].1.0.abs(),
                ).contains(child);
            assert(edge_credits(store, updates, node, sub_fuel, i2, v));
        }
        assert forall|v: ObjectId|
            #[trigger] walk_credits(store, updates, node, fuel as nat, v)
                && vault_change_defined(store, updates, v) implies acc.contains_abs(
            vault_resource(store, updates, v),
        ) by {
            let child = choose|child: RENodeId|
                #[trigger] owns_edge(updates, node, child) && walk_credits(
                    store,
                    updates,
                    child,
                    sub_fuel,
                    v,
                );
            let i2 = choose|i2: int|
                0 <= i2 < updates.entries().len() && (
                #[trigger] updates.entries()[i2]).0.abs().node_id == node
                    && crate::substates::spec_owned_nodes(
                    updates.entries()[i2].1.0.abs(),
                ).contains(child);
            assert(edge_credits(store, updates, node, sub_fuel, i2, v));
        }
    }
}


/// Whether a defined vault change nets to nothing: equal fungible amounts,
/// or identical non-fungible id sets.
pub open spec fn vault_change_noop<S: ReadableSubstateStore>(
    store: &S,
    updates: &OrderedMap<SubstateId, (PersistedSubstate, Option<u32>)>,
    v: ObjectId,
) -> bool {
    let (resource, fungible) = spec_vault_info(store, updates, v)->Some_0;
    if fungible {
        let id = vault_substate_id(v, SubstateOffsetAbs::Vault(VaultOffset::LiquidFungible));
        let (new_row, old_version) = updates.at_abs(id);
        let new_amount = new_row.abs()->VaultLiquidFungible_0.amount_units.units;
        let old_amount = if old_version is None {
            0int
        } else {
            store.substates_view()[id].substate->VaultLiquidFungible_0.amount_units.units as int
        };
        new_amount == old_amount
    } else {
        let id = vault_substate_id(v, SubstateOffsetAbs::Vault(VaultOffset::LiquidNonFungible));
        let new_ids = updates.at_abs(id).0->VaultLiquidNonFungible_0.ids;
        forall|y: u64| new_ids.contains_id(y) <==> spec_old_ids_contain(store, updates, v, y)
    }
}

/// Whether some touched global root's walk credits vault `v`.
pub open spec fn root_credited<S: ReadableSubstateStore>(
    store: &S,
    updates: &OrderedMap<SubstateId, (PersistedSubstate, Option<u32>)>,
    v: ObjectId,
) -> bool {
    exists|a: Address|
        node_touched(updates, RENodeId::GlobalObject(a)) && #[trigger] walk_credits(
            store,
            updates,
            RENodeId::GlobalObject(a),
            walk_fuel(updates),
            v,
        )
}

/// Computes the two balance-change summaries of a committed transaction:
/// per global root, the net changes of every vault reached from it through
/// the updates' ownership edges; and per directly-touched vault never
/// reached from any root, its own net change. Both sides are pruned of
/// entries that net to nothing.
pub fn balance_changes<S: ReadableSubstateStore>(
    store: &S,
    updates: &OrderedMap<SubstateId, (PersistedSubstate, Option<u32>)>,
) -> (r: (
    OrderedMap<Address, OrderedMap<ResourceAddress, BalanceChange>>,
    OrderedMap<ObjectId, OrderedMap<ResourceAddress, BalanceChange>>,
))
    requires
        store.store_inv(),
        updates.wf(),
    ensures
        r.0.wf(),
        r.1.wf(),
        forall|a: Address|
            #[trigger] r.0.contains_abs(a) ==> (exists|i: int|
                0 <= i < updates.entries().len() && (#[trigger] updates.entries()[i]).0.abs().node_id
                    == RENodeId::GlobalObject(a)),
        forall|a: Address|
            #[trigger] r.0.contains_abs(a) ==> {
                let inner = r.0.at_abs(a);
                &&& inner.wf()
                &&& inner.entries().len() > 0
                &&& forall|j: int|
                    0 <= j < inner.entries().len() ==> !is_noop_change(
                        (#[trigger] inner.entries()[j]).1,
                    )
            },
        forall|v: ObjectId|
            #[trigger] r.1.contains_abs(v) ==> {
                let inner = r.1.at_abs(v);
                &&& vault_change_defined(store, updates, v)
                &&& inner.wf()
                &&& inner.entries().len() == 1
                &&& change_matches(
                    store,
                    updates,
                    v,
                    (inner.entries()[0].0, inner.entries()[0].1),
                )
                &&& !is_noop_change(inner.entries()[0].1)
            },
        forall|v: ObjectId|
            node_touched(updates, RENodeId::Object(v)) && #[trigger] vault_change_defined(
                store,
                updates,
                v,
            ) && !vault_change_noop(store, updates, v) ==> (r.1.contains_abs(v) || root_credited(
                store,
                updates,
                v,
            )),
{
    let n = updates.len();
    let fuel: u64 = if (n as u64) < u64::MAX {
        (n as u64) + 1
    } else {
        u64::MAX
    };
    proof {
        assert(fuel as nat == walk_fuel(updates));
    }
    let mut accounted_vaults: Vec<ObjectId> = Vec::new();
    let mut roots_done: Vec<Address> = Vec::new();
    let mut root_map: OrderedMap<Address, OrderedMap<ResourceAddress, BalanceChange>> =
        OrderedMap::new();
    let mut i: usize = 0;
    while i < n
        invariant
            store.store_inv(),
            updates.wf(),
            n == updates.entries().len(),
            i <= n,
            root_map.wf(),
            forall|a: Address|
                #[trigger] root_map.contains_abs(a) ==> (exists|t: int|
                    0 <= t < updates.entries().len() && (
                    #[trigger] updates.entries()[t]).0.abs().node_id == RENodeId::GlobalObject(
                        a,
                    )),
            forall|a: Address|
                #[trigger] root_map.contains_abs(a) ==> {
                    let inner = root_map.at_abs(a);
                    &&& inner.wf()
                    &&& inner.entries().len() > 0
                    &&& forall|j: int|
                        0 <= j < inner.entries().len() ==> !is_noop_change(
                            (#[trigger] inner.entries()[j]).1,
                        )
                },
            fuel as nat == walk_fuel(updates),
            forall|t: int|
                0 <= t < accounted_vaults@.len() ==> root_credited(
                    store,
                    updates,
                    #[trigger] accounted_vaults@[t],
                ),
        decreases n - i,
    {
        let node = updates.key_at(i).0;
        match node {
            RENodeId::GlobalObject(address) => {
                let mut seen = false;
                let rd = roots_done.len();
                let mut t: usize = 0;
                while t < rd
                    invariant
                        rd == roots_done@.len(),
                        t <= rd,
                    decreases rd - t,
                {
                    if roots_done[t] == address {
                        seen = true;
                    }
                    t = t + 1;
                }
                if !seen {
                    roots_done.push(address);
                    let mut acc: OrderedMap<ResourceAddress, BalanceChange> = OrderedMap::new();
                    let ghost accounted_pre = accounted_vaults@;
                    traverse_state_updates(
                        store,
                        updates,
                        &mut acc,
                        &mut accounted_vaults,
                        node,
                        fuel,
                    );
                    proof {
                        assert(updates.entries()[i as int].0.abs().node_id == node);
                        assert(node_touched(updates, node));
                        assert forall|t: int|
                            0 <= t < accounted_vaults@.len() implies root_credited(
                            store,
                            updates,
                            #[trigger] accounted_vaults@[t],
                        ) by {
                            if t < accounted_pre.len() {
                                assert(accounted_vaults@[t] == accounted_pre[t]);
                            } else {
                                assert(walk_credits(
                                    store,
                                    updates,
                                    node,
                                    fuel as nat,
                                    accounted_vaults@[t],
                                ));
                            }
                        }
                    }
                    let pruned = prune_resource_changes(acc);
                    if pruned.len() > 0 {
                        proof {
                            assert(updates.entries()[i as int].0.abs().node_id
                                == RENodeId::GlobalObject(address));
                            assert forall|j: int|
                                0 <= j < pruned.entries().len() implies !is_noop_change(
                                (#[trigger] pruned.entries()[j]).1,
                            ) by {
                                pruned.lemma_index_unique(j);
                            }
                        }
                        root_map.insert_entry(address, pruned);
                    }
                }
            },
            _ => {},
        }
        i = i + 1;
    }
    let mut direct: OrderedMap<ObjectId, OrderedMap<ResourceAddress, BalanceChange>> =
        OrderedMap::new();
    let mut i2: usize = 0;
    while i2 < n
        invariant
            store.store_inv(),
            updates.wf(),
            n == updates.entries().len(),
            i2 <= n,
            direct.wf(),
            fuel as nat == walk_fuel(updates),
            forall|t: int|
                0 <= t < accounted_vaults@.len() ==> root_credited(
                    store,
                    updates,
                    #[trigger] accounted_vaults@[t],
                ),
            forall|v: ObjectId|
                #[trigger] direct.contains_abs(v) ==> {
                    let inner = direct.at_abs(v);
                    &&& vault_change_defined(store, updates, v)
                    &&& inner.wf()
                    &&& inner.entries().len() == 1
                    &&& change_matches(
                        store,
                        updates,
                        v,
                        (inner.entries()[0].0, inner.entries()[0].1),
                    )
                    &&& !is_noop_change(inner.entries()[0].1)
                },
            forall|v: ObjectId|
                (exists|t: int|
                    0 <= t < i2 && (#[trigger] updates.entries()[t]).0.abs().node_id
                        == RENodeId::Object(v)) && vault_change_defined(store, updates, v)
                    && !vault_change_noop(store, updates, v) ==> (direct.contains_abs(v)
                    || root_credited(store, updates, v)),
        decreases n - i2,
    {
        let ghost direct_pre = direct;
        let node = updates.key_at(i2).0;
        match node {
            RENodeId::Object(v) => {
                proof {
                    assert(updates.entries()[i2 as int].0.abs().node_id == RENodeId::Object(v));
                }
                let mut skip = direct.contains_key(&v);
                let ghost in_direct = direct.contains_abs(v);
                let ghost in_accounted = accounted_vaults@.contains(v);
                if !skip {
                    let av = accounted_vaults.len();
                    let mut t: usize = 0;
                    while t < av
                        invariant
                            av == accounted_vaults@.len(),
                            t <= av,
                            skip <==> exists|x: int|
                                0 <= x < t && accounted_vaults@[x] == v,
                        decreases av - t,
                    {
                        if accounted_vaults[t] == v {
                            proof {
                                assert(accounted_vaults@[t as int] == v);
                            }
                            skip = true;
                        }
                        t = t + 1;
                    }
                }
                proof {
                    if skip && !in_direct {
                        let x = choose|x: int|
                            0 <= x < accounted_vaults@.len() && accounted_vaults@[x] == v;
                        assert(root_credited(store, updates, v));
                    }
                }
                if !skip {
                    let is_vault = match vault_info(store, updates, v) {
                        Some(_) => true,
                        None => false,
                    };
                    if is_vault {
                        match calculate_vault_balance_change(store, updates, v) {
                            Some((resource, change)) => {
                                if !is_noop(&change) {
                                    let mut inner: OrderedMap<ResourceAddress, BalanceChange> =
                                        OrderedMap::new();
                                    inner.push_new(resource, change);
                                    direct.push_new(v, inner);
                                } else {
                                    proof {
                                        let info = spec_vault_info(store, updates, v)->Some_0;
                                        if info.1 {
                                            assert(vault_change_noop(store, updates, v));
                                        } else {
                                            match &change {
                                                BalanceChange::NonFungible { added, removed } => {
                                                    let id = vault_substate_id(
                                                        v,
                                                        SubstateOffsetAbs::Vault(
                                                            VaultOffset::LiquidNonFungible,
                                                        ),
                                                    );
                                                    let new_ids = updates.at_abs(
                                                        id,
                                                    ).0->VaultLiquidNonFungible_0.ids;
                                                    assert forall|y: u64|
                                                        new_ids.contains_id(y)
                                                            <==> spec_old_ids_contain(
                                                            store,
                                                            updates,
                                                            v,
                                                            y,
                                                        ) by {
                                                        if new_ids.contains_id(y)
                                                            && !spec_old_ids_contain(
                                                            store,
                                                            updates,
                                                            v,
                                                            y,
                                                        ) {
                                                            assert(added.contains_id(y));
                                                            assert(removed.contains_id(y));
                                                        }
                                                        if spec_old_ids_contain(
                                                            store,
                                                            updates,
                                                            v,
                                                            y,
                                                        ) && !new_ids.contains_id(y) {
                                                            assert(removed.contains_id(y));
                                                            assert(added.contains_id(y));
                                                        }
                                                    }
                                                    assert(vault_change_noop(store, updates, v));
                                                },
                                                _ => {
                                                    assert(false);
                                                },
                                            }
                                        }
                                    }
                                }
                            },
                            None => {},
                        }
                    }
                }
                proof {
                    assert forall|w: ObjectId|
                        (exists|t: int|
                            0 <= t < i2 + 1 && (#[trigger] updates.entries()[t]).0.abs().node_id
                                == RENodeId::Object(w)) && vault_change_defined(store, updates, w)
                            && !vault_change_noop(store, updates, w) implies (direct.contains_abs(
                        w,
                    ) || root_credited(store, updates, w)) by {
                        let t = choose|t: int|
                            0 <= t < i2 + 1 && (#[trigger] updates.entries()[t]).0.abs().node_id
                                == RENodeId::Object(w);
                        if t < i2 {
                            if direct_pre.contains_abs(w) {
                                assert(direct.contains_abs(w));
                            }
                        } else {
                            assert(w == v);
                        }
                    }
                }
            },
            _ => {
                proof {
                    assert forall|w: ObjectId|
                        (exists|t: int|
                            0 <= t < i2 + 1 && (#[trigger] updates.entries()[t]).0.abs().node_id
                                == RENodeId::Object(w)) && vault_change_defined(store, updates, w)
                            && !vault_change_noop(store, updates, w) implies (direct.contains_abs(
                        w,
                    ) || root_credited(store, updates, w)) by {
                        let t = choose|t: int|
                            0 <= t < i2 + 1 && (#[trigger] updates.entries()[t]).0.abs().node_id
                                == RENodeId::Object(w);
                        if t == i2 {
                            assert(updates.entries()[i2 as int].0.abs().node_id == node);
                        }
                    }
                }
            },
        }
        i2 = i2 + 1;
    }
    (root_map, direct)
}

} // verus!
