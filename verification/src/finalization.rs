//! Finalization: drains the transaction overlay into a persistable state
//! diff, settles fees against the locked fee vaults, and summarises what the
//! transaction created and moved.

use vstd::prelude::*;
use crate::addressing::{Address, ComponentAddress, NodeModule, NodeModuleId, PackageAddress,
    RENodeId, ObjectId, ResourceAddress, SubstateId, SubstateIdAbs, SubstateOffset,
    SubstateOffsetAbs, VaultOffset};
use crate::accounting::balance_changes;
use crate::collections::{EqKey, OrderedMap};
use crate::decimal::Decimal;
use crate::diff::{IterableNodeDiff, IterableSubstateDiff, StateDiff};
use crate::fees::{AMOUNT_BOUND, FeeReserveError, SystemLoanFeeReserve};
use crate::fingerprint::{spec_fingerprint, substate_fingerprint};
use crate::receipt::{AbortReason, AbortResult, CommitResult, EventTypeIdentifier,
    InstructionOutput, Level, RejectResult, StateUpdateSummary, TransactionOutcome,
    TransactionResult};
use crate::resources::{LiquidFungibleResource, LockedFungibleResource};
use crate::store::{OutputId, OutputValue, ReadableSubstateStore};
use crate::substates::{PersistedSubstate, RuntimeSubstate, SubstateAbs};
use crate::errors::{ApplicationError, ModuleError, RuntimeError};
use crate::fees::CostingError;
use crate::track::{spec_determine_result_type, determine_result_type, ExistingMetaAbs,
    ExistingMetaState, IterableNodeUpdate, IterableSubstateUpdate, LoadedSubstate, MetaAbs,
    SubstateMetaState, Track, TransactionResultType};

verus! {

/// How many fee locks one transaction may carry; keeps the settlement sums
/// inside the amount type.
pub const MAX_FEE_LOCKS: usize = 0x100000;

/// The key of a vault's liquid fungible substate.
pub open spec fn vault_liquid_id(vault_id: ObjectId) -> SubstateIdAbs {
    SubstateIdAbs {
        node_id: RENodeId::Object(vault_id),
        module_id: NodeModuleId::SELF,
        offset: SubstateOffsetAbs::Vault(VaultOffset::LiquidFungible),
    }
}

/// The fee-settlement walk over the locked fees, newest lock first: each
/// lock pays the smaller of its amount and what is still required (a
/// contingent lock pays nothing when execution failed), and the rest is
/// refunded. Yields the payments in walk order and what is still owed.
pub open spec fn spec_settle(
    fees: Seq<(ObjectId, LockedFungibleResource, bool)>,
    required: int,
    is_success: bool,
) -> (Seq<(ObjectId, int)>, int)
    decreases fees.len(),
{
    if fees.len() == 0 {
        (Seq::empty(), required)
    } else {
        let newest = fees.last();
        let amount = if newest.2 && !is_success {
            0
        } else if newest.1.amount_units.units <= required {
            newest.1.amount_units.units as int
        } else {
            required
        };
        let rest = spec_settle(fees.drop_last(), required - amount, is_success);
        (seq![(newest.0, amount)] + rest.0, rest.1)
    }
}

/// The total paid to one vault in a payments walk.
pub open spec fn paid_to(pays: Seq<(ObjectId, int)>, v: ObjectId) -> int
    decreases pays.len(),
{
    if pays.len() == 0 {
        0
    } else {
        paid_to(pays.drop_last(), v) + if pays.last().0 == v {
            pays.last().1
        } else {
            0
        }
    }
}

/// The total locked from one vault across the fee locks.
pub open spec fn locked_sum(fees: Seq<(ObjectId, LockedFungibleResource, bool)>, v: ObjectId) -> int
    decreases fees.len(),
{
    if fees.len() == 0 {
        0
    } else {
        locked_sum(fees.drop_last(), v) + if fees.last().0 == v {
            fees.last().1.amount_units.units as int
        } else {
            0
        }
    }
}

/// Every payment of the walk is at most the lock it came from, so the total
/// paid from a vault never exceeds the total locked from it, and the walk
/// never owes less than nothing.
pub proof fn lemma_settle_bounds(
    fees: Seq<(ObjectId, LockedFungibleResource, bool)>,
    required: int,
    is_success: bool,
    v: ObjectId,
)
    requires
        required >= 0,
        forall|i: int| 0 <= i < fees.len() ==> 0 <= (#[trigger] fees[i]).1.amount_units.units,
    ensures
        0 <= paid_to(spec_settle(fees, required, is_success).0, v) <= locked_sum(fees, v),
        0 <= spec_settle(fees, required, is_success).1 <= required,
        0 <= locked_sum(fees, v),
    decreases fees.len(),
{
    if fees.len() > 0 {
        let newest = fees.last();
        let amount = if newest.2 && !is_success {
            0
        } else if newest.1.amount_units.units <= required {
            newest.1.amount_units.units as int
        } else {
            required
        };
        assert(fees[fees.len() - 1] == newest);
        assert(0 <= amount <= newest.1.amount_units.units);
        assert(forall|i: int|
            0 <= i < fees.drop_last().len() ==> 0 <= (
            #[trigger] fees.drop_last()[i]).1.amount_units.units);
        lemma_settle_bounds(fees.drop_last(), required - amount, is_success, v);
        let rest = spec_settle(fees.drop_last(), required - amount, is_success).0;
        lemma_paid_prepend(newest.0, amount, rest, v);
    }
}

/// Prepending one payment adds its amount to that vault's total.
pub proof fn lemma_paid_prepend(id: ObjectId, amount: int, rest: Seq<(ObjectId, int)>, v: ObjectId)
    ensures
        paid_to(seq![(id, amount)] + rest, v) == paid_to(rest, v) + if id == v {
            amount
        } else {
            0
        },
    decreases rest.len(),
{
    let s = seq![(id, amount)] + rest;
    if rest.len() == 0 {
        assert(s.len() == 1);
        assert(s.last() == (id, amount));
        assert(s.drop_last() =~= Seq::<(ObjectId, int)>::empty());
        assert(paid_to(s.drop_last(), v) == 0);
        assert(paid_to(rest, v) == 0);
    } else {
        assert(s.last() == rest.last());
        assert(s.drop_last() =~= seq![(id, amount)] + rest.drop_last());
        lemma_paid_prepend(id, amount, rest.drop_last(), v);
        assert(paid_to(s, v) == paid_to(s.drop_last(), v) + if s.last().0 == v {
            s.last().1
        } else {
            0
        });
        assert(paid_to(rest, v) == paid_to(rest.drop_last(), v) + if rest.last().0 == v {
            rest.last().1
        } else {
            0
        });
    }
}


/// Whether a loaded row survives into the commit's dirty set: on success
/// every row does; on failure only the rows whose metadata carries a forced
/// snapshot.
pub open spec fn selected_contains(
    loaded: &OrderedMap<SubstateId, LoadedSubstate>,
    is_success: bool,
    id: SubstateIdAbs,
) -> bool {
    if is_success {
        loaded.contains_abs(id)
    } else {
        loaded.contains_abs(id) && loaded.at_abs(id).metastate.abs() matches MetaAbs::Existing {
            state: ExistingMetaAbs::Updated(Some(_)),
            ..
        }
    }
}

/// Drains the overlay's rows into the dirty set the commit will persist: on
/// success all of them, with their versions; on failure exactly the
/// force-written snapshots — everything else is discarded as if it never
/// happened.
pub fn select_state_updates(
    loaded: OrderedMap<SubstateId, LoadedSubstate>,
    is_success: bool,
) -> (r: OrderedMap<SubstateId, (PersistedSubstate, Option<u32>)>)
    requires
        loaded.wf(),
        is_success ==> forall|i: int|
            0 <= i < loaded.entries().len() ==> (
            #[trigger] loaded.entries()[i]).1.substate.is_persistable(),
    ensures
        r.wf(),
        forall|id: SubstateIdAbs|
            #[trigger] r.contains_abs(id) == selected_contains(&loaded, is_success, id),
        forall|id: SubstateIdAbs|
            #[trigger] r.contains_abs(id) ==> r.at_abs(id).0.abs() == (if is_success {
                loaded.at_abs(id).substate.abs()
            } else {
                loaded.at_abs(id).metastate.abs()->Existing_state->Updated_0->Some_0
            }),
        forall|id: SubstateIdAbs|
            #[trigger] r.contains_abs(id) ==> r.at_abs(id).1 == (
            match loaded.at_abs(id).metastate.abs() {
                MetaAbs::New => None::<u32>,
                MetaAbs::Existing { old_version, .. } => Some(old_version),
            }),
        forall|i: int|
            0 <= i < r.entries().len() ==> loaded.contains_abs(
                (#[trigger] r.entries()[i]).0.abs(),
            ),
{
    let ghost src = loaded.entries();
    let mut kept: OrderedMap<SubstateId, (PersistedSubstate, Option<u32>)> = OrderedMap::new();
    let mut pairs = loaded.into_pairs();
    let n = pairs.len();
    let mut i: usize = 0;
    while i < n
        invariant
            n == src.len(),
            i <= n,
            pairs@ == src.skip(i as int),
            forall|a: int, b: int|
                0 <= a < b < src.len() ==> (#[trigger] src[a]).0.abs() != (
                #[trigger] src[b]).0.abs(),
            is_success ==> forall|a: int|
                0 <= a < src.len() ==> (#[trigger] src[a]).1.substate.is_persistable(),
            kept.wf(),
            forall|a: SubstateIdAbs|
                #[trigger] kept.contains_abs(a) ==> exists|j: int|
                    0 <= j < i && (#[trigger] src[j]).0.abs() == a,
            forall|j: int|
                0 <= j < i ==> ((#[trigger] kept.contains_abs(src[j].0.abs())) <==> (
                if is_success {
                    true
                } else {
                    src[j].1.metastate.abs() matches MetaAbs::Existing {
                        state: ExistingMetaAbs::Updated(Some(_)),
                        ..
                    }
                })),
            forall|j: int|
                0 <= j < i && kept.contains_abs((#[trigger] src[j]).0.abs()) ==> kept.at_abs(
                    src[j].0.abs(),
                ).0.abs() == (if is_success {
                    src[j].1.substate.abs()
                } else {
                    src[j].1.metastate.abs()->Existing_state->Updated_0->Some_0
                }),
            forall|j: int|
                0 <= j < i && kept.contains_abs((#[trigger] src[j]).0.abs()) ==> kept.at_abs(
                    src[j].0.abs(),
                ).1 == (match src[j].1.metastate.abs() {
                    MetaAbs::New => None::<u32>,
                    MetaAbs::Existing { old_version, .. } => Some(old_version),
                }),
        decreases n - i,
    {
        let ghost kept0 = kept;
        let pair = pairs.remove(0);
        proof {
            assert(src.skip(i as int)[0] == src[i as int]);
            assert(src.skip(i as int).remove(0) =~= src.skip(i + 1));
            if kept.contains_abs(pair.0.abs()) {
                let j = choose|j: int| 0 <= j < i && (#[trigger] src[j]).0.abs() == pair.0.abs();
                assert(src[j].0.abs() == src[i as int].0.abs());
            }
        }
        let (key, row) = pair;
        let old_version: Option<u32> = match &row.metastate {
            SubstateMetaState::New => None,
            SubstateMetaState::Existing { old_version, .. } => Some(*old_version),
        };
        if is_success {
            kept.push_new(key, (row.substate.to_persisted(), old_version));
        } else {
            match row.metastate {
                SubstateMetaState::Existing {
                    old_version: ov,
                    state: ExistingMetaState::Updated(Some(snapshot)),
                } => {
                    kept.push_new(key, (snapshot, Some(ov)));
                },
                _ => {},
            }
        }
        proof {
            assert forall|j: int|
                0 <= j < i + 1 implies ((#[trigger] kept.contains_abs(src[j].0.abs())) <==> (
            if is_success {
                true
            } else {
                src[j].1.metastate.abs() matches MetaAbs::Existing {
                    state: ExistingMetaAbs::Updated(Some(_)),
                    ..
                }
            })) by {
                if j < i {
                    assert(src[j].0.abs() != src[i as int].0.abs());
                    assert(kept.contains_abs(src[j].0.abs()) == kept0.contains_abs(
                        src[j].0.abs(),
                    ));
                }
            }
            assert forall|j: int|
                0 <= j < i + 1 && kept.contains_abs((#[trigger] src[j]).0.abs()) implies
                kept.at_abs(src[j].0.abs()).0.abs() == (if is_success {
                src[j].1.substate.abs()
            } else {
                src[j].1.metastate.abs()->Existing_state->Updated_0->Some_0
            }) && kept.at_abs(src[j].0.abs()).1 == (match src[j].1.metastate.abs() {
                MetaAbs::New => None::<u32>,
                MetaAbs::Existing { old_version, .. } => Some(old_version),
            }) by {
                if j < i {
                    assert(src[j].0.abs() != src[i as int].0.abs());
                }
            }
        }
        i = i + 1;
    }
    proof {
        assert forall|id: SubstateIdAbs|
            #[trigger] kept.contains_abs(id) == selected_contains(&loaded, is_success, id) by {
            if kept.contains_abs(id) {
                let j = choose|j: int| 0 <= j < n && (#[trigger] src[j]).0.abs() == id;
                loaded.lemma_index_unique(j);
            }
            if selected_contains(&loaded, is_success, id) {
                let j = loaded.index_of_abs(id);
                loaded.lemma_index_unique(j);
                assert(src[j].0.abs() == id);
            }
        }
        assert forall|id: SubstateIdAbs| #[trigger] kept.contains_abs(id) implies kept.at_abs(
            id,
        ).0.abs() == (if is_success {
            loaded.at_abs(id).substate.abs()
        } else {
            loaded.at_abs(id).metastate.abs()->Existing_state->Updated_0->Some_0
        }) && kept.at_abs(id).1 == (match loaded.at_abs(id).metastate.abs() {
            MetaAbs::New => None::<u32>,
            MetaAbs::Existing { old_version, .. } => Some(old_version),
        }) by {
            let j = choose|j: int| 0 <= j < n && (#[trigger] src[j]).0.abs() == id;
            loaded.lemma_index_unique(j);
        }
        assert forall|i2: int|
            0 <= i2 < kept.entries().len() implies loaded.contains_abs(
            (#[trigger] kept.entries()[i2]).0.abs(),
        ) by {
            kept.lemma_index_unique(i2);
            let a = kept.entries()[i2].0.abs();
            let j = choose|j: int| 0 <= j < n && (#[trigger] src[j]).0.abs() == a;
            loaded.lemma_index_unique(j);
        }
    }
    kept
}


/// A vault nowhere in a payments walk was paid nothing.
pub proof fn lemma_paid_absent(pays: Seq<(ObjectId, int)>, v: ObjectId)
    requires
        forall|t: int| 0 <= t < pays.len() ==> (#[trigger] pays[t]).0 != v,
    ensures
        paid_to(pays, v) == 0,
    decreases pays.len(),
{
    if pays.len() > 0 {
        assert(pays[pays.len() - 1] == pays.last());
        lemma_paid_absent(pays.drop_last(), v);
    }
}

/// Whether `id` is the liquid substate key of one of the fee-lock vaults.
pub open spec fn is_fee_vault_id(
    fees: Seq<(ObjectId, LockedFungibleResource, bool)>,
    id: SubstateIdAbs,
) -> bool {
    exists|k: int| 0 <= k < fees.len() && vault_liquid_id((#[trigger] fees[k]).0) == id
}

/// The liquid amount a dirty set holds for one vault.
pub open spec fn dirty_vault_amount(
    m: &OrderedMap<SubstateId, (PersistedSubstate, Option<u32>)>,
    v: ObjectId,
) -> int {
    m.at_abs(vault_liquid_id(v)).0.abs()->VaultLiquidFungible_0.amount_units.units as int
}

/// Every fee-lock vault has a fungible liquid row in the dirty set, within
/// the amount bounds.
pub open spec fn fee_vaults_covered(
    m: &OrderedMap<SubstateId, (PersistedSubstate, Option<u32>)>,
    fees: Seq<(ObjectId, LockedFungibleResource, bool)>,
) -> bool {
    forall|k: int|
        0 <= k < fees.len() ==> {
            let vid = vault_liquid_id((#[trigger] fees[k]).0);
            &&& m.contains_abs(vid)
            &&& m.at_abs(vid).0.abs() matches SubstateAbs::VaultLiquidFungible(l) && 0
                <= l.amount_units.units < AMOUNT_BOUND
        }
}

/// Walks the fee locks newest-first, taking from each the smaller of its
/// locked amount and what is still required (nothing from a contingent lock
/// of a failed execution), refunding the unspent remainder into the vault's
/// dirty liquid row, and accumulating what each vault finally paid.
#[verifier::rlimit(100)]
#[verifier::spinoff_prover]
pub fn settle_fees(
    state_updates: &mut OrderedMap<SubstateId, (PersistedSubstate, Option<u32>)>,
    fees: &Vec<(ObjectId, LockedFungibleResource, bool)>,
    required0: Decimal,
    is_success: bool,
) -> (r: OrderedMap<ObjectId, Decimal>)
    requires
        old(state_updates).wf(),
        0 <= required0.units < 2 * AMOUNT_BOUND,
        fees@.len() <= MAX_FEE_LOCKS,
        forall|k: int|
            0 <= k < fees@.len() ==> 0 <= (#[trigger] fees@[k]).1.amount_units.units
                < AMOUNT_BOUND,
        fee_vaults_covered(old(state_updates), fees@),
    ensures
        final(state_updates).wf(),
        r.wf(),
        forall|id: SubstateIdAbs|
            #[trigger] final(state_updates).contains_abs(id) == old(state_updates).contains_abs(
                id,
            ),
        forall|id: SubstateIdAbs|
            old(state_updates).contains_abs(id) && !is_fee_vault_id(fees@, id)
                ==> #[trigger] final(state_updates).at_abs(id) == old(state_updates).at_abs(id),
        forall|k: int|
            0 <= k < fees@.len() ==> {
                let v = (#[trigger] fees@[k]).0;
                let vid = vault_liquid_id(v);
                &&& final(state_updates).at_abs(vid).0.abs()
                    matches SubstateAbs::VaultLiquidFungible(l) && l.amount_units.units as int
                    == dirty_vault_amount(old(state_updates), v) + locked_sum(fees@, v) - paid_to(
                    spec_settle(fees@, required0.units as int, is_success).0,
                    v,
                )
                &&& final(state_updates).at_abs(vid).1 == old(state_updates).at_abs(vid).1
            },
        forall|v: ObjectId|
            #[trigger] r.contains_abs(v) <==> (exists|k: int|
                0 <= k < fees@.len() && (#[trigger] fees@[k]).0 == v),
        forall|v: ObjectId|
            #[trigger] r.contains_abs(v) ==> r.at_abs(v).units as int == paid_to(
                spec_settle(fees@, required0.units as int, is_success).0,
                v,
            ),
{
    let ghost all = fees@;
    let n = fees.len();
    let mut req = required0;
    let ghost mut done: Seq<(ObjectId, int)> = Seq::empty();
    let mut payments: OrderedMap<ObjectId, Decimal> = OrderedMap::new();
    let mut k: usize = 0;
    proof {
        assert(all.take(n as int) =~= all);
    }
    while k < n
        invariant
            state_updates.wf(),
            payments.wf(),
            all == fees@,
            n == all.len(),
            k <= n,
            n <= MAX_FEE_LOCKS,
            forall|t: int|
                0 <= t < all.len() ==> 0 <= (#[trigger] all[t]).1.amount_units.units
                    < AMOUNT_BOUND,
            fee_vaults_covered(old(state_updates), all),
            0 <= req.units <= required0.units,
            spec_settle(all, required0.units as int, is_success).0 == done + spec_settle(
                all.take(n - k),
                req.units as int,
                is_success,
            ).0,
            done.len() == k as int,
            forall|t: int| 0 <= t < done.len() ==> 0 <= (#[trigger] done[t]).1 < AMOUNT_BOUND,
            forall|t: int| 0 <= t < done.len() ==> (#[trigger] done[t]).0 == all[n - 1 - t].0,
            forall|v: ObjectId|
                #[trigger] payments.contains_abs(v) <==> (exists|j: int|
                    n - k <= j < n && (#[trigger] all[j]).0 == v),
            forall|v: ObjectId|
                #[trigger] payments.contains_abs(v) ==> payments.at_abs(v).units as int == paid_to(
                    done,
                    v,
                ),
            forall|v: ObjectId|
                0 <= paid_to(done, v) && paid_to(done, v) <= locked_sum(all, v) - locked_sum(
                    all.take(n - k),
                    v,
                ) && locked_sum(all, v) - locked_sum(all.take(n - k), v) <= (k as int)
                    * AMOUNT_BOUND,
            forall|id: SubstateIdAbs|
                #[trigger] state_updates.contains_abs(id) == old(state_updates).contains_abs(id),
            forall|id: SubstateIdAbs|
                old(state_updates).contains_abs(id) && !is_fee_vault_id(all, id)
                    ==> #[trigger] state_updates.at_abs(id) == old(state_updates).at_abs(id),
            forall|t: int|
                0 <= t < all.len() ==> {
                    let v = (#[trigger] all[t]).0;
                    let vid = vault_liquid_id(v);
                    &&& state_updates.contains_abs(vid)
                    &&& state_updates.at_abs(vid).0.abs()
                        matches SubstateAbs::VaultLiquidFungible(l) && l.amount_units.units as int
                        == dirty_vault_amount(old(state_updates), v) + (locked_sum(all, v)
                        - locked_sum(all.take(n - k), v)) - paid_to(done, v)
                    &&& state_updates.at_abs(vid).1 == old(state_updates).at_abs(vid).1
                },
        decreases n - k,
    {
        let idx = n - 1 - k;
        proof {
            assert(idx < n);
        }
        let fee = fees[idx];
        let (vault, locked, contingent) = fee;
        proof {
            assert(fee == all[idx as int]);
            assert(0 <= locked.amount_units.units < AMOUNT_BOUND);
        }
        let ghost remaining = all.take(n - k);
        proof {
            assert(remaining.len() == n - k);
            assert(remaining.last() == all[idx as int]);
            assert(remaining.drop_last() =~= all.take(n - k - 1));
        }
        let amount: Decimal = if contingent && !is_success {
            Decimal::zero()
        } else {
            Decimal::min(locked.amount(), req)
        };
        req = req.sub(amount);
        // Refund the unspent remainder into the vault's dirty liquid row.
        let key = SubstateId(
            RENodeId::Object(vault),
            NodeModuleId::SELF,
            SubstateOffset::Vault(VaultOffset::LiquidFungible),
        );
        let ghost vid = key.abs();
        proof {
            assert(vid == vault_liquid_id(vault));
        }
        let i = match state_updates.index_of(&key) {
            Some(i) => i,
            None => vstd::pervasive::unreached(),
        };
        proof {
            state_updates.lemma_index_unique(i as int);
        }
        let pair = state_updates.value_at(i);
        let current: Decimal = match &pair.0 {
            PersistedSubstate::VaultLiquidFungible(l) => l.amount_units,
            _ => vstd::pervasive::unreached(),
        };
        let old_version = pair.1;
        let refund = locked.amount().sub(amount);
        proof {
            assert(0 <= paid_to(done, vault));
            assert(locked_sum(all, vault) - locked_sum(remaining, vault) <= (k as int)
                * AMOUNT_BOUND);
            assert((k as int) * AMOUNT_BOUND <= (MAX_FEE_LOCKS as int) * AMOUNT_BOUND)
                by (nonlinear_arith)
                requires
                    0 <= k as int <= MAX_FEE_LOCKS as int,
            ;
        }
        let new_amount = current.add(refund);
        let ghost pre_updates = *state_updates;
        state_updates.set_value_at(
            i,
            (
                PersistedSubstate::VaultLiquidFungible(
                    LiquidFungibleResource { amount_units: new_amount },
                ),
                old_version,
            ),
        );
        // Record what this vault has paid so far.
        let ghost pre_payments = payments;
        match payments.index_of(&vault) {
            Some(j) => {
                let prior = *payments.value_at(j);
                proof {
                    assert(prior.units as int == paid_to(done, vault));
                    assert(paid_to(done, vault) <= locked_sum(all, vault) - locked_sum(
                        remaining,
                        vault,
                    ));
                }
                payments.set_value_at(j, Decimal { units: prior.units + amount.units });
            },
            None => {
                proof {
                    assert forall|t: int| 0 <= t < done.len() implies (#[trigger] done[t]).0
                        != vault by {
                        assert(done[t].0 == all[n - 1 - t].0);
                        assert(n - k <= n - 1 - t < n);
                    }
                    lemma_paid_absent(done, vault);
                }
                payments.push_new(vault, amount);
            },
        }
        proof {
            let p = (vault, amount.units as int);
            let done1 = done.push(p);
            assert(done1.drop_last() =~= done);
            assert forall|v: ObjectId| paid_to(done1, v) == paid_to(done, v) + (
            if v == vault {
                amount.units as int
            } else {
                0int
            }) by {
                assert(done1.last() == p);
            }
            let rest = spec_settle(all.take(n - k - 1), req.units as int, is_success).0;
            assert(spec_settle(remaining, (req.units + amount.units) as int, is_success).0
                == seq![p] + rest);
            assert(done + (seq![p] + rest) =~= done1 + rest);
            done = done1;
            assert forall|t: int|
                0 <= t < all.len() implies {
                let v = (#[trigger] all[t]).0;
                let vid2 = vault_liquid_id(v);
                &&& state_updates.contains_abs(vid2)
                &&& state_updates.at_abs(vid2).0.abs()
                    matches SubstateAbs::VaultLiquidFungible(l) && l.amount_units.units as int
                    == dirty_vault_amount(old(state_updates), v) + (locked_sum(all, v)
                    - locked_sum(all.take(n - k - 1), v)) - paid_to(done, v)
                &&& state_updates.at_abs(vid2).1 == old(state_updates).at_abs(vid2).1
            } by {
                let v = all[t].0;
                let vid2 = vault_liquid_id(v);
                if vid2 == vid {
                    assert(v == vault);
                } else {
                    assert(state_updates.at_abs(vid2) == pre_updates.at_abs(vid2));
                }
            }
        }
        k = k + 1;
    }
    proof {
        assert(all.take(0) =~= Seq::<(ObjectId, LockedFungibleResource, bool)>::empty());
        assert(spec_settle(all.take(0), req.units as int, is_success).0 =~= Seq::<(
            ObjectId,
            int,
        )>::empty());
        assert(done + spec_settle(all.take(0), req.units as int, is_success).0 =~= done);
    }
    payments
}


/// Whether the updates create address `a`: some dirty substate of that
/// global node has no old version.
pub open spec fn is_new_global(
    updates: &OrderedMap<SubstateId, (PersistedSubstate, Option<u32>)>,
    a: Address,
) -> bool {
    exists|i: int|
        0 <= i < updates.entries().len() && (#[trigger] updates.entries()[i]).0.abs().node_id
            == RENodeId::GlobalObject(a) && updates.entries()[i].1.1 is None
}

/// Summarises a commit's dirty set: the global package, component and
/// resource addresses it creates, and the balance changes of the vaults it
/// touches, per reachable root and per stranded vault.
pub fn summarize_update<S: ReadableSubstateStore>(
    substate_store: &S,
    state_updates: &OrderedMap<SubstateId, (PersistedSubstate, Option<u32>)>,
) -> (r: StateUpdateSummary)
    requires
        substate_store.store_inv(),
        state_updates.wf(),
    ensures
        forall|p: PackageAddress|
            r.new_packages@.contains(p) <==> is_new_global(state_updates, Address::Package(p)),
        forall|c: ComponentAddress|
            r.new_components@.contains(c) <==> is_new_global(state_updates, Address::Component(c)),
        forall|a: ResourceAddress|
            r.new_resources@.contains(a) <==> is_new_global(state_updates, Address::Resource(a)),
        forall|i: int, j: int|
            0 <= i < j < r.new_packages@.len() ==> r.new_packages@[i] != r.new_packages@[j],
        forall|i: int, j: int|
            0 <= i < j < r.new_components@.len() ==> r.new_components@[i] != r.new_components@[j],
        forall|i: int, j: int|
            0 <= i < j < r.new_resources@.len() ==> r.new_resources@[i] != r.new_resources@[j],
        r.balance_changes.wf(),
        r.direct_vault_updates.wf(),
        forall|a: Address|
            #[trigger] r.balance_changes.contains_abs(a) ==> (exists|i: int|
                0 <= i < state_updates.entries().len() && (
                #[trigger] state_updates.entries()[i]).0.abs().node_id == RENodeId::GlobalObject(
                    a,
                )),
        forall|a: Address|
            #[trigger] r.balance_changes.contains_abs(a) ==> {
                let inner = r.balance_changes.at_abs(a);
                &&& inner.wf()
                &&& inner.entries().len() > 0
                &&& forall|j: int|
                    0 <= j < inner.entries().len() ==> !crate::accounting::is_noop_change(
                        (#[trigger] inner.entries()[j]).1,
                    )
            },
        forall|v: ObjectId|
            #[trigger] r.direct_vault_updates.contains_abs(v) ==> {
                let inner = r.direct_vault_updates.at_abs(v);
                &&& crate::accounting::vault_change_defined(substate_store, state_updates, v)
                &&& inner.wf()
                &&& inner.entries().len() == 1
                &&& crate::accounting::change_matches(
                    substate_store,
                    state_updates,
                    v,
                    (inner.entries()[0].0, inner.entries()[0].1),
                )
                &&& !crate::accounting::is_noop_change(inner.entries()[0].1)
            },
        forall|v: ObjectId|
            crate::accounting::node_touched(state_updates, RENodeId::Object(v))
                && #[trigger] crate::accounting::vault_change_defined(
                substate_store,
                state_updates,
                v,
            ) && !crate::accounting::vault_change_noop(substate_store, state_updates, v) ==> (
            r.direct_vault_updates.contains_abs(v) || crate::accounting::root_credited(
                substate_store,
                state_updates,
                v,
            )),
{
    let n = state_updates.len();
    let mut new_packages: Vec<PackageAddress> = Vec::new();
    let mut new_components: Vec<ComponentAddress> = Vec::new();
    let mut new_resources: Vec<ResourceAddress> = Vec::new();
    let mut i: usize = 0;
    while i < n
        invariant
            state_updates.wf(),
            n == state_updates.entries().len(),
            i <= n,
            forall|p: PackageAddress|
                new_packages@.contains(p) <==> (exists|t: int|
                    0 <= t < i && (#[trigger] state_updates.entries()[t]).0.abs().node_id
                        == RENodeId::GlobalObject(Address::Package(p))
                        && state_updates.entries()[t].1.1 is None),
            forall|c: ComponentAddress|
                new_components@.contains(c) <==> (exists|t: int|
                    0 <= t < i && (#[trigger] state_updates.entries()[t]).0.abs().node_id
                        == RENodeId::GlobalObject(Address::Component(c))
                        && state_updates.entries()[t].1.1 is None),
            forall|a: ResourceAddress|
                new_resources@.contains(a) <==> (exists|t: int|
                    0 <= t < i && (#[trigger] state_updates.entries()[t]).0.abs().node_id
                        == RENodeId::GlobalObject(Address::Resource(a))
                        && state_updates.entries()[t].1.1 is None),
            forall|a: int, b: int|
                0 <= a < b < new_packages@.len() ==> new_packages@[a] != new_packages@[b],
            forall|a: int, b: int|
                0 <= a < b < new_components@.len() ==> new_components@[a] != new_components@[b],
            forall|a: int, b: int|
                0 <= a < b < new_resources@.len() ==> new_resources@[a] != new_resources@[b],
        decreases n - i,
    {
        let ghost packages0 = new_packages@;
        let ghost components0 = new_components@;
        let ghost resources0 = new_resources@;
        let is_new = match state_updates.value_at(i).1 {
            None => true,
            Some(_) => false,
        };
        if is_new {
            let node = state_updates.key_at(i).0;
            match node {
                RENodeId::GlobalObject(Address::Package(p)) => {
                    let mut seen = false;
                    let m = new_packages.len();
                    let mut t: usize = 0;
                    while t < m
                        invariant
                            m == new_packages@.len(),
                            t <= m,
                            seen <==> exists|x: int| 0 <= x < t && new_packages@[x] == p,
                        decreases m - t,
                    {
                        if new_packages[t] == p {
                            seen = true;
                        }
                        t = t + 1;
                    }
                    if !seen {
                        new_packages.push(p);
                        proof {
                            assert(new_packages@.last() == p);
                            assert forall|q: PackageAddress|
                                packages0.contains(q) implies new_packages@.contains(q) by {
                                let x = choose|x: int|
                                    0 <= x < packages0.len() && packages0[x] == q;
                                assert(new_packages@[x] == q);
                            }
                            assert forall|q: PackageAddress|
                                new_packages@.contains(q) implies (packages0.contains(q) || q
                                == p) by {
                                let x = choose|x: int|
                                    0 <= x < new_packages@.len() && new_packages@[x] == q;
                                if x < packages0.len() {
                                    assert(packages0[x] == q);
                                }
                            }
                        }
                    }
                },
                RENodeId::GlobalObject(Address::Component(c)) => {
                    let mut seen = false;
                    let m = new_components.len();
                    let mut t: usize = 0;
                    while t < m
                        invariant
                            m == new_components@.len(),
                            t <= m,
                            seen <==> exists|x: int| 0 <= x < t && new_components@[x] == c,
                        decreases m - t,
                    {
                        if new_components[t] == c {
                            seen = true;
                        }
                        t = t + 1;
                    }
                    if !seen {
                        new_components.push(c);
                        proof {
                            assert(new_components@.last() == c);
                            assert forall|q: ComponentAddress|
                                components0.contains(q) implies new_components@.contains(q) by {
                                let x = choose|x: int|
                                    0 <= x < components0.len() && components0[x] == q;
                                assert(new_components@[x] == q);
                            }
                            assert forall|q: ComponentAddress|
                                new_components@.contains(q) implies (components0.contains(q) || q
                                == c) by {
                                let x = choose|x: int|
                                    0 <= x < new_components@.len() && new_components@[x] == q;
                                if x < components0.len() {
                                    assert(components0[x] == q);
                                }
                            }
                        }
                    }
                },
                RENodeId::GlobalObject(Address::Resource(a)) => {
                    let mut seen = false;
                    let m = new_resources.len();
                    let mut t: usize = 0;
                    while t < m
                        invariant
                            m == new_resources@.len(),
                            t <= m,
                            seen <==> exists|x: int| 0 <= x < t && new_resources@[x] == a,
                        decreases m - t,
                    {
                        if new_resources[t] == a {
                            seen = true;
                        }
                        t = t + 1;
                    }
                    if !seen {
                        new_resources.push(a);
                        proof {
                            assert(new_resources@.last() == a);
                            assert forall|q: ResourceAddress|
                                resources0.contains(q) implies new_resources@.contains(q) by {
                                let x = choose|x: int|
                                    0 <= x < resources0.len() && resources0[x] == q;
                                assert(new_resources@[x] == q);
                            }
                            assert forall|q: ResourceAddress|
                                new_resources@.contains(q) implies (resources0.contains(q) || q
                                == a) by {
                                let x = choose|x: int|
                                    0 <= x < new_resources@.len() && new_resources@[x] == q;
                                if x < resources0.len() {
                                    assert(resources0[x] == q);
                                }
                            }
                        }
                    }
                },
                _ => {},
            }
        }
        proof {
            let e = state_updates.entries()[i as int];
            assert forall|p: PackageAddress|
                new_packages@.contains(p) <==> (exists|t: int|
                    0 <= t < i + 1 && (#[trigger] state_updates.entries()[t]).0.abs().node_id
                        == RENodeId::GlobalObject(Address::Package(p))
                        && state_updates.entries()[t].1.1 is None) by {
                if new_packages@.contains(p) {
                    if packages0.contains(p) {
                    } else {
                        assert(e.0.abs().node_id == RENodeId::GlobalObject(Address::Package(p))
                            && e.1.1 is None);
                    }
                }
                if exists|t: int|
                    0 <= t < i + 1 && (#[trigger] state_updates.entries()[t]).0.abs().node_id
                        == RENodeId::GlobalObject(Address::Package(p))
                        && state_updates.entries()[t].1.1 is None {
                    let t = choose|t: int|
                        0 <= t < i + 1 && (#[trigger] state_updates.entries()[t]).0.abs().node_id
                            == RENodeId::GlobalObject(Address::Package(p))
                            && state_updates.entries()[t].1.1 is None;
                    if t < i {
                        assert(packages0.contains(p));
                        let x = choose|x: int| 0 <= x < packages0.len() && packages0[x] == p;
                        assert(new_packages@[x] == p);
                    }
                }
            }
            assert forall|c: ComponentAddress|
                new_components@.contains(c) <==> (exists|t: int|
                    0 <= t < i + 1 && (#[trigger] state_updates.entries()[t]).0.abs().node_id
                        == RENodeId::GlobalObject(Address::Component(c))
                        && state_updates.entries()[t].1.1 is None) by {
                if new_components@.contains(c) {
                    if components0.contains(c) {
                    } else {
                        assert(e.0.abs().node_id == RENodeId::GlobalObject(Address::Component(c))
                            && e.1.1 is None);
                    }
                }
                if exists|t: int|
                    0 <= t < i + 1 && (#[trigger] state_updates.entries()[t]).0.abs().node_id
                        == RENodeId::GlobalObject(Address::Component(c))
                        && state_updates.entries()[t].1.1 is None {
                    let t = choose|t: int|
                        0 <= t < i + 1 && (#[trigger] state_updates.entries()[t]).0.abs().node_id
                            == RENodeId::GlobalObject(Address::Component(c))
                            && state_updates.entries()[t].1.1 is None;
                    if t < i {
                        assert(components0.contains(c));
                        let x = choose|x: int| 0 <= x < components0.len() && components0[x] == c;
                        assert(new_components@[x] == c);
                    }
                }
            }
            assert forall|a2: ResourceAddress|
                new_resources@.contains(a2) <==> (exists|t: int|
                    0 <= t < i + 1 && (#[trigger] state_updates.entries()[t]).0.abs().node_id
                        == RENodeId::GlobalObject(Address::Resource(a2))
                        && state_updates.entries()[t].1.1 is None) by {
                if new_resources@.contains(a2) {
                    if resources0.contains(a2) {
                    } else {
                        assert(e.0.abs().node_id == RENodeId::GlobalObject(Address::Resource(a2))
                            && e.1.1 is None);
                    }
                }
                if exists|t: int|
                    0 <= t < i + 1 && (#[trigger] state_updates.entries()[t]).0.abs().node_id
                        == RENodeId::GlobalObject(Address::Resource(a2))
                        && state_updates.entries()[t].1.1 is None {
                    let t = choose|t: int|
                        0 <= t < i + 1 && (#[trigger] state_updates.entries()[t]).0.abs().node_id
                            == RENodeId::GlobalObject(Address::Resource(a2))
                            && state_updates.entries()[t].1.1 is None;
                    if t < i {
                        assert(resources0.contains(a2));
                        let x = choose|x: int| 0 <= x < resources0.len() && resources0[x] == a2;
                        assert(new_resources@[x] == a2);
                    }
                }
            }
        }
        i = i + 1;
    }
    let maps = balance_changes(substate_store, state_updates);
    proof {
        assert forall|v: ObjectId| #[trigger] maps.1.contains_abs(v) implies {
            let inner = maps.1.at_abs(v);
            &&& crate::accounting::vault_change_defined(substate_store, state_updates, v)
            &&& inner.wf()
            &&& inner.entries().len() == 1
            &&& crate::accounting::change_matches(
                substate_store,
                state_updates,
                v,
                (inner.entries()[0].0, inner.entries()[0].1),
            )
            &&& !crate::accounting::is_noop_change(inner.entries()[0].1)
        } by {
            assert(maps.1.contains_abs(v));
        }
    }
    StateUpdateSummary {
        new_packages,
        new_components,
        new_resources,
        balance_changes: maps.0,
        direct_vault_updates: maps.1,
    }
}

/// Builds the persistable diff from the dirty substates and the collection
/// overlays: every dirty key becomes an up entry at the successor of the
/// version the store currently holds (zero for a brand-new key), and every
/// replaced store row is recorded as a down entry by fingerprint.
#[verifier::rlimit(100)]
#[verifier::spinoff_prover]
pub fn generate_diff<S: ReadableSubstateStore>(
    substate_store: &S,
    state_updates: OrderedMap<SubstateId, (PersistedSubstate, Option<u32>)>,
    iterable_node_updates: OrderedMap<NodeModule, IterableNodeUpdate>,
) -> (r: StateDiff)
    requires
        substate_store.store_inv(),
        state_updates.wf(),
        iterable_node_updates.wf(),
        forall|i: int|
            0 <= i < state_updates.entries().len() ==> !((
            #[trigger] state_updates.entries()[i]).0.abs().offset is IterableMap),
        forall|i: int|
            0 <= i < state_updates.entries().len()
                && substate_store.substates_view().contains_key(
                (#[trigger] state_updates.entries()[i]).0.abs(),
            ) ==> substate_store.substates_view()[state_updates.entries()[i].0.abs()].version
                < u32::MAX,
        forall|i: int|
            0 <= i < iterable_node_updates.entries().len() ==> match (
            #[trigger] iterable_node_updates.entries()[i]).1 {
                IterableNodeUpdate::New(m) => m.wf(),
                IterableNodeUpdate::Update(m) => m.wf(),
            },
    ensures
        r.wf(),
        forall|id: SubstateIdAbs|
            #[trigger] r.up_substates.contains_abs(id) == state_updates.contains_abs(id),
        forall|id: SubstateIdAbs|
            #[trigger] state_updates.contains_abs(id) ==> r.up_substates.at_abs(id).substate
                == state_updates.at_abs(id).0,
        forall|id: SubstateIdAbs|
            #[trigger] state_updates.contains_abs(id) ==> r.up_substates.at_abs(id).version == (
            if substate_store.substates_view().contains_key(id) {
                (substate_store.substates_view()[id].version + 1) as u32
            } else {
                0u32
            }),
        forall|i: int|
            0 <= i < r.down_substates@.len() ==> {
                let d = #[trigger] r.down_substates@[i];
                &&& state_updates.contains_abs(d.substate_id.abs())
                &&& substate_store.substates_view().contains_key(d.substate_id.abs())
                &&& d.version == substate_store.substates_view()[d.substate_id.abs()].version
                &&& d.substate_hash == spec_fingerprint(
                    substate_store.substates_view()[d.substate_id.abs()].substate,
                )
            },
        forall|nm: NodeModule|
            #[trigger] r.iterable_nodes_update.contains_abs(nm)
                == iterable_node_updates.contains_abs(nm),
        forall|nm: NodeModule|
            #[trigger] iterable_node_updates.contains_abs(nm) ==> match iterable_node_updates.at_abs(
                nm,
            ) {
                IterableNodeUpdate::New(m) => r.iterable_nodes_update.at_abs(nm)
                    == IterableNodeDiff::New(m),
                IterableNodeUpdate::Update(u) => {
                    &&& r.iterable_nodes_update.at_abs(nm) matches IterableNodeDiff::Update(d)
                    &&& d.entries().len() == u.entries().len()
                    &&& forall|j: int|
                        0 <= j < u.entries().len() ==> (#[trigger] d.entries()[j]).0
                            == u.entries()[j].0 && (match u.entries()[j].1 {
                            IterableSubstateUpdate::Insert(v) => d.entries()[j].1
                                == IterableSubstateDiff::Insert(v),
                            IterableSubstateUpdate::Remove => d.entries()[j].1
                                == IterableSubstateDiff::Remove,
                        })
                },
            },
{
    let ghost updates0 = state_updates.entries();
    let ghost iters0 = iterable_node_updates.entries();
    let mut diff = StateDiff::new();
    let mut update_pairs = state_updates.into_pairs();
    let n = update_pairs.len();
    let mut i: usize = 0;
    while i < n
        invariant
            substate_store.store_inv(),
            n == updates0.len(),
            i <= n,
            update_pairs@ == updates0.skip(i as int),
            forall|a: int, b: int|
                0 <= a < b < updates0.len() ==> (#[trigger] updates0[a]).0.abs() != (
                #[trigger] updates0[b]).0.abs(),
            forall|a: int|
                0 <= a < updates0.len() ==> !((#[trigger] updates0[a]).0.abs().offset
                    is IterableMap),
            forall|a: int|
                0 <= a < updates0.len() && substate_store.substates_view().contains_key(
                    (#[trigger] updates0[a]).0.abs(),
                ) ==> substate_store.substates_view()[updates0[a].0.abs()].version < u32::MAX,
            diff.up_substates.wf(),
            diff.up_substates.entries().len() == i as int,
            forall|a: int|
                0 <= a < i ==> (#[trigger] diff.up_substates.entries()[a]).0.abs()
                    == updates0[a].0.abs(),
            forall|a: int|
                0 <= a < i ==> (#[trigger] diff.up_substates.entries()[a]).1.substate
                    == updates0[a].1.0,
            forall|a: int|
                0 <= a < i ==> (#[trigger] diff.up_substates.entries()[a]).1.version == (
                if substate_store.substates_view().contains_key(updates0[a].0.abs()) {
                    (substate_store.substates_view()[updates0[a].0.abs()].version + 1) as u32
                } else {
                    0u32
                }),
            forall|b: int|
                0 <= b < diff.down_substates@.len() ==> {
                    let d = #[trigger] diff.down_substates@[b];
                    &&& substate_store.substates_view().contains_key(d.substate_id.abs())
                    &&& d.version == substate_store.substates_view()[d.substate_id.abs()].version
                    &&& d.substate_hash == spec_fingerprint(
                        substate_store.substates_view()[d.substate_id.abs()].substate,
                    )
                    &&& exists|a: int|
                        0 <= a < i && (#[trigger] updates0[a]).0.abs() == d.substate_id.abs()
                },
            diff.iterable_nodes_update.entries().len() == 0,
        decreases n - i,
    {
        let pair = update_pairs.remove(0);
        proof {
            assert(updates0.skip(i as int)[0] == updates0[i as int]);
            assert(updates0.skip(i as int).remove(0) =~= updates0.skip(i + 1));
        }
        let (key, value_pair) = pair;
        let (substate, _old_version) = value_pair;
        let key_copy = key.duplicate();
        let next_version: u32;
        match substate_store.get_substate(&key_copy) {
            Some(existing) => {
                next_version = existing.version + 1;
                let fingerprint = substate_fingerprint(&existing.substate);
                diff.down_substates.push(
                    OutputId {
                        substate_id: key_copy,
                        substate_hash: fingerprint,
                        version: existing.version,
                    },
                );
            },
            None => {
                next_version = 0;
            },
        }
        proof {
            if diff.up_substates.contains_abs(key.abs()) {
                let a = diff.up_substates.index_of_abs(key.abs());
                assert(diff.up_substates.entries()[a].0.abs() == updates0[a].0.abs());
            }
        }
        diff.up_substates.push_new(key, OutputValue { substate, version: next_version });
        i = i + 1;
    }
    let mut iter_pairs = iterable_node_updates.into_pairs();
    let m = iter_pairs.len();
    let ghost up_done = diff.up_substates;
    let ghost down_done = diff.down_substates@;
    let mut t: usize = 0;
    while t < m
        invariant
            m == iters0.len(),
            t <= m,
            iter_pairs@ == iters0.skip(t as int),
            forall|a: int, b: int|
                0 <= a < b < iters0.len() ==> (#[trigger] iters0[a]).0.key() != (
                #[trigger] iters0[b]).0.key(),
            forall|a: int|
                0 <= a < iters0.len() ==> match (#[trigger] iters0[a]).1 {
                    IterableNodeUpdate::New(mm) => mm.wf(),
                    IterableNodeUpdate::Update(mm) => mm.wf(),
                },
            diff.up_substates == up_done,
            diff.down_substates@ == down_done,
            diff.iterable_nodes_update.wf(),
            diff.iterable_nodes_update.entries().len() == t as int,
            forall|a: int|
                0 <= a < t ==> (#[trigger] diff.iterable_nodes_update.entries()[a]).0
                    == iters0[a].0,
            forall|a: int|
                0 <= a < t ==> match (#[trigger] diff.iterable_nodes_update.entries()[a]).1 {
                    IterableNodeDiff::New(d) => iters0[a].1 == IterableNodeUpdate::New(d),
                    IterableNodeDiff::Update(d) => {
                        &&& iters0[a].1 matches IterableNodeUpdate::Update(uu)
                        &&& d.wf()
                        &&& d.entries().len() == uu.entries().len()
                        &&& forall|j: int|
                            0 <= j < uu.entries().len() ==> (#[trigger] d.entries()[j]).0
                                == uu.entries()[j].0 && (match uu.entries()[j].1 {
                                IterableSubstateUpdate::Insert(v) => d.entries()[j].1
                                    == IterableSubstateDiff::Insert(v),
                                IterableSubstateUpdate::Remove => d.entries()[j].1
                                    == IterableSubstateDiff::Remove,
                            })
                    },
                },
        decreases m - t,
    {
        let pair = iter_pairs.remove(0);
        proof {
            assert(iters0.skip(t as int)[0] == iters0[t as int]);
            assert(iters0.skip(t as int).remove(0) =~= iters0.skip(t + 1));
        }
        let (nm, update) = pair;
        let converted: IterableNodeDiff = match update {
            IterableNodeUpdate::New(mm) => IterableNodeDiff::New(mm),
            IterableNodeUpdate::Update(uu) => {
                let ghost uu0 = uu.entries();
                let mut ops = uu.pairs;
                let mut copy_pairs: Vec<(u64, IterableSubstateDiff)> = Vec::new();
                let c = ops.len();
                let mut j: usize = 0;
                while j < c
                    invariant
                        c == uu0.len(),
                        j <= c,
                        ops@ == uu0.skip(j as int),
                        copy_pairs@.len() == j as int,
                        forall|a: int|
                            0 <= a < j ==> (#[trigger] copy_pairs@[a]).0 == uu0[a].0,
                        forall|a: int|
                            0 <= a < j ==> match uu0[a].1 {
                                IterableSubstateUpdate::Insert(v) => (
                                #[trigger] copy_pairs@[a]).1 == IterableSubstateDiff::Insert(v),
                                IterableSubstateUpdate::Remove => (#[trigger] copy_pairs@[a]).1
                                    == IterableSubstateDiff::Remove,
                            },
                    decreases c - j,
                {
                    let op = ops.remove(0);
                    proof {
                        assert(uu0.skip(j as int)[0] == uu0[j as int]);
                        assert(uu0.skip(j as int).remove(0) =~= uu0.skip(j + 1));
                    }
                    let converted_op = match op.1 {
                        IterableSubstateUpdate::Insert(v) => IterableSubstateDiff::Insert(v),
                        IterableSubstateUpdate::Remove => IterableSubstateDiff::Remove,
                    };
                    copy_pairs.push((op.0, converted_op));
                    j = j + 1;
                }
                let ghost src = iters0[t as int].1;
                proof {
                    assert forall|a: int, b: int|
                        0 <= a < b < copy_pairs@.len() implies (#[trigger] copy_pairs@[a]).0 < (
                    #[trigger] copy_pairs@[b]).0 by {
                        assert(uu0[a].0 < uu0[b].0);
                    }
                }
                IterableNodeDiff::Update(crate::collections::SortedU64Map { pairs: copy_pairs })
            },
        };
        proof {
            if diff.iterable_nodes_update.contains_abs(nm) {
                let a = diff.iterable_nodes_update.index_of_abs(nm);
                assert(diff.iterable_nodes_update.entries()[a].0 == iters0[a].0);
            }
        }
        diff.iterable_nodes_update.push_new(nm, converted);
        t = t + 1;
    }
    proof {
        assert forall|id: SubstateIdAbs|
            #[trigger] diff.up_substates.contains_abs(id) == state_updates.contains_abs(id) by {
            if diff.up_substates.contains_abs(id) {
                let a = diff.up_substates.index_of_abs(id);
                assert(updates0[a].0.abs() == id);
            }
            if state_updates.contains_abs(id) {
                let a = state_updates.index_of_abs(id);
                assert(diff.up_substates.entries()[a].0.abs() == id);
            }
        }
        assert forall|id: SubstateIdAbs| #[trigger] state_updates.contains_abs(id) implies
            diff.up_substates.at_abs(id).substate == state_updates.at_abs(id).0
                && diff.up_substates.at_abs(id).version == (
            if substate_store.substates_view().contains_key(id) {
                (substate_store.substates_view()[id].version + 1) as u32
            } else {
                0u32
            }) by {
            let a = state_updates.index_of_abs(id);
            state_updates.lemma_index_unique(a);
            assert(diff.up_substates.entries()[a].0.abs() == id);
            diff.up_substates.lemma_index_unique(a);
        }
        assert forall|b: int|
            0 <= b < diff.down_substates@.len() implies state_updates.contains_abs(
            (#[trigger] diff.down_substates@[b]).substate_id.abs(),
        ) by {
            let a = choose|a: int|
                0 <= a < n && (#[trigger] updates0[a]).0.abs()
                    == diff.down_substates@[b].substate_id.abs();
            assert(state_updates.entries()[a].0.abs() == diff.down_substates@[b].substate_id.abs());
        }
        assert forall|nm: NodeModule|
            #[trigger] diff.iterable_nodes_update.contains_abs(nm)
                == iterable_node_updates.contains_abs(nm) by {
            if diff.iterable_nodes_update.contains_abs(nm) {
                let a = diff.iterable_nodes_update.index_of_abs(nm);
                assert(iters0[a].0.key() == nm);
            }
            if iterable_node_updates.contains_abs(nm) {
                let a = iterable_node_updates.index_of_abs(nm);
                assert(diff.iterable_nodes_update.entries()[a].0.key() == nm);
            }
        }
        assert forall|nm: NodeModule| #[trigger] iterable_node_updates.contains_abs(nm) implies
            match iterable_node_updates.at_abs(nm) {
                IterableNodeUpdate::New(mm) => diff.iterable_nodes_update.at_abs(nm)
                    == IterableNodeDiff::New(mm),
                IterableNodeUpdate::Update(u) => {
                    &&& diff.iterable_nodes_update.at_abs(nm) matches IterableNodeDiff::Update(d)
                    &&& d.entries().len() == u.entries().len()
                    &&& forall|j: int|
                        0 <= j < u.entries().len() ==> (#[trigger] d.entries()[j]).0
                            == u.entries()[j].0 && (match u.entries()[j].1 {
                            IterableSubstateUpdate::Insert(v) => d.entries()[j].1
                                == IterableSubstateDiff::Insert(v),
                            IterableSubstateUpdate::Remove => d.entries()[j].1
                                == IterableSubstateDiff::Remove,
                        })
                },
            } by {
            let a = iterable_node_updates.index_of_abs(nm);
            iterable_node_updates.lemma_index_unique(a);
            assert(diff.iterable_nodes_update.entries()[a].0.key() == nm);
            diff.iterable_nodes_update.lemma_index_unique(a);
        }
    }
    diff
}

/// The value a loaded row contributes to the dirty set: its content on a
/// successful commit, its forced snapshot on a failed one.
pub open spec fn selected_value_abs(
    loaded: &OrderedMap<SubstateId, LoadedSubstate>,
    is_success: bool,
    id: SubstateIdAbs,
) -> SubstateAbs {
    if is_success {
        loaded.at_abs(id).substate.abs()
    } else {
        loaded.at_abs(id).metastate.abs()->Existing_state->Updated_0->Some_0
    }
}

/// Every fee-lock vault's liquid row survives into the dirty set as a
/// bounded fungible amount — fee vaults are force-written, so this holds on
/// failure as well.
pub open spec fn loaded_fee_vaults_covered(
    loaded: &OrderedMap<SubstateId, LoadedSubstate>,
    fees: Seq<(ObjectId, LockedFungibleResource, bool)>,
    is_success: bool,
) -> bool {
    forall|k: int|
        0 <= k < fees.len() ==> {
            let vid = vault_liquid_id((#[trigger] fees[k]).0);
            &&& selected_contains(loaded, is_success, vid)
            &&& selected_value_abs(loaded, is_success, vid)
                matches SubstateAbs::VaultLiquidFungible(l) && 0 <= l.amount_units.units
                < AMOUNT_BOUND
        }
}

/// What the commit owes the fee vaults in total: execution cost plus
/// royalties, less the written-off bad debt.
pub open spec fn spec_required(fee_reserve: SystemLoanFeeReserve) -> int {
    fee_reserve.execution_cost.units + fee_reserve.royalty_cost.units
        - fee_reserve.bad_debt.units
}


/// Whether `m` is exactly the settled dirty set of a commit: the selection
/// of the loaded rows (all on success, forced snapshots on failure), with
/// each fee vault's liquid amount refunded per the settlement walk.
pub open spec fn settled_updates_match<S: ReadableSubstateStore>(
    store: &S,
    loaded: &OrderedMap<SubstateId, LoadedSubstate>,
    fees: Seq<(ObjectId, LockedFungibleResource, bool)>,
    required: int,
    is_success: bool,
    m: OrderedMap<SubstateId, (PersistedSubstate, Option<u32>)>,
) -> bool {
    &&& m.wf()
    &&& (forall|id: SubstateIdAbs|
        #[trigger] m.contains_abs(id) == selected_contains(loaded, is_success, id))
    &&& (forall|id: SubstateIdAbs|
        #[trigger] m.contains_abs(id) && !is_fee_vault_id(fees, id) ==> m.at_abs(id).0.abs()
            == selected_value_abs(loaded, is_success, id))
    &&& (forall|k: int|
        0 <= k < fees.len() ==> {
            let v = (#[trigger] fees[k]).0;
            let vid = vault_liquid_id(v);
            m.at_abs(vid).0.abs() matches SubstateAbs::VaultLiquidFungible(l)
                && l.amount_units.units as int == selected_value_abs(loaded, is_success, vid)
                ->VaultLiquidFungible_0.amount_units.units + locked_sum(fees, v) - paid_to(
                spec_settle(fees, required, is_success).0,
                v,
            )
        })
    &&& (forall|id: SubstateIdAbs|
        #[trigger] m.contains_abs(id) ==> m.at_abs(id).1 == (
        match loaded.at_abs(id).metastate.abs() {
            MetaAbs::New => None::<u32>,
            MetaAbs::Existing { old_version, .. } => Some(old_version),
        }))
}

/// Whether `summary` correctly summarises the dirty set `m`: the created
/// global addresses exactly, and balance-change maps that are well-formed,
/// pruned, sound per vault, and complete for every changed vault.
pub open spec fn summary_describes<S: ReadableSubstateStore>(
    store: &S,
    m: &OrderedMap<SubstateId, (PersistedSubstate, Option<u32>)>,
    summary: StateUpdateSummary,
) -> bool {
    &&& (forall|p: PackageAddress|
        summary.new_packages@.contains(p) <==> is_new_global(m, Address::Package(p)))
    &&& (forall|c: ComponentAddress|
        summary.new_components@.contains(c) <==> is_new_global(m, Address::Component(c)))
    &&& (forall|a: ResourceAddress|
        summary.new_resources@.contains(a) <==> is_new_global(m, Address::Resource(a)))
    &&& summary.balance_changes.wf()
    &&& summary.direct_vault_updates.wf()
    &&& (forall|a: Address|
        #[trigger] summary.balance_changes.contains_abs(a) ==> (exists|i: int|
            0 <= i < m.entries().len() && (#[trigger] m.entries()[i]).0.abs().node_id
                == RENodeId::GlobalObject(a)))
    &&& (forall|a: Address|
        #[trigger] summary.balance_changes.contains_abs(a) ==> {
            let inner = summary.balance_changes.at_abs(a);
            &&& inner.wf()
            &&& inner.entries().len() > 0
            &&& forall|j: int|
                0 <= j < inner.entries().len() ==> !crate::accounting::is_noop_change(
                    (#[trigger] inner.entries()[j]).1,
                )
        })
    &&& (forall|v: ObjectId|
        #[trigger] summary.direct_vault_updates.contains_abs(v) ==> {
            let inner = summary.direct_vault_updates.at_abs(v);
            &&& crate::accounting::vault_change_defined(store, m, v)
            &&& inner.wf()
            &&& inner.entries().len() == 1
            &&& crate::accounting::change_matches(
                store,
                m,
                v,
                (inner.entries()[0].0, inner.entries()[0].1),
            )
            &&& !crate::accounting::is_noop_change(inner.entries()[0].1)
        })
    &&& (forall|v: ObjectId|
        crate::accounting::node_touched(m, RENodeId::Object(v))
            && #[trigger] crate::accounting::vault_change_defined(store, m, v)
            && !crate::accounting::vault_change_noop(store, m, v)
            ==> (summary.direct_vault_updates.contains_abs(v)
            || crate::accounting::root_credited(store, m, v)))
}

/// Assembles the result of a committing transaction: drains the overlay into
/// the dirty set (all of it on success, only forced snapshots on failure),
/// settles the locked fees against the fee vaults, summarises the commit and
/// generates the persistable diff.
#[verifier::rlimit(100)]
#[verifier::spinoff_prover]
pub fn calculate_commit_result<S: ReadableSubstateStore>(
    substate_store: &S,
    loaded_substates: OrderedMap<SubstateId, LoadedSubstate>,
    iterable_nodes: OrderedMap<NodeModule, IterableNodeUpdate>,
    invoke_result: Result<Vec<InstructionOutput>, RuntimeError>,
    application_events: Vec<(EventTypeIdentifier, Vec<u8>)>,
    application_logs: Vec<(Level, String)>,
    fee_reserve: SystemLoanFeeReserve,
) -> (r: CommitResult)
    requires
        substate_store.store_inv(),
        loaded_substates.wf(),
        iterable_nodes.wf(),
        forall|i: int|
            0 <= i < iterable_nodes.entries().len() ==> match (
            #[trigger] iterable_nodes.entries()[i]).1 {
                IterableNodeUpdate::New(m) => m.wf(),
                IterableNodeUpdate::Update(m) => m.wf(),
            },
        fee_reserve.wf(),
        fee_reserve.locked_fees@.len() <= MAX_FEE_LOCKS,
        invoke_result is Ok ==> forall|i: int|
            0 <= i < loaded_substates.entries().len() ==> (
            #[trigger] loaded_substates.entries()[i]).1.substate.is_persistable(),
        forall|i: int|
            0 <= i < loaded_substates.entries().len() ==> !((
            #[trigger] loaded_substates.entries()[i]).0.abs().offset is IterableMap),
        forall|i: int|
            0 <= i < loaded_substates.entries().len()
                && substate_store.substates_view().contains_key(
                (#[trigger] loaded_substates.entries()[i]).0.abs(),
            ) ==> substate_store.substates_view()[loaded_substates.entries()[i].0.abs()].version
                < u32::MAX,
        loaded_fee_vaults_covered(&loaded_substates, fee_reserve.locked_fees@, invoke_result is Ok),
    ensures
        match invoke_result {
            Ok(outputs) => r.outcome == TransactionOutcome::Success(outputs),
            Err(e) => r.outcome == TransactionOutcome::Failure(e),
        },
        r.application_events@ == application_events@,
        r.application_logs@ == application_logs@,
        r.fee_summary.total_execution_cost_xrd == fee_reserve.execution_cost,
        r.fee_summary.total_royalty_cost_xrd == fee_reserve.royalty_cost,
        r.fee_summary.total_bad_debt_xrd == fee_reserve.bad_debt,
        r.fee_summary.locked_fees@ == fee_reserve.locked_fees@,
        forall|id: SubstateIdAbs|
            #[trigger] r.state_updates.up_substates.contains_abs(id) == selected_contains(
                &loaded_substates,
                invoke_result is Ok,
                id,
            ),
        forall|id: SubstateIdAbs|
            #[trigger] r.state_updates.up_substates.contains_abs(id) && !is_fee_vault_id(
                fee_reserve.locked_fees@,
                id,
            ) ==> r.state_updates.up_substates.at_abs(id).substate.abs() == selected_value_abs(
                &loaded_substates,
                invoke_result is Ok,
                id,
            ),
        forall|k: int|
            0 <= k < fee_reserve.locked_fees@.len() ==> {
                let v = (#[trigger] fee_reserve.locked_fees@[k]).0;
                let vid = vault_liquid_id(v);
                r.state_updates.up_substates.at_abs(vid).substate.abs()
                    matches SubstateAbs::VaultLiquidFungible(l) && l.amount_units.units as int
                    == selected_value_abs(
                    &loaded_substates,
                    invoke_result is Ok,
                    vid,
                )->VaultLiquidFungible_0.amount_units.units + locked_sum(
                    fee_reserve.locked_fees@,
                    v,
                ) - paid_to(
                    spec_settle(
                        fee_reserve.locked_fees@,
                        spec_required(fee_reserve),
                        invoke_result is Ok,
                    ).0,
                    v,
                )
            },
        forall|id: SubstateIdAbs|
            #[trigger] r.state_updates.up_substates.contains_abs(id)
                ==> r.state_updates.up_substates.at_abs(id).version == (
            if substate_store.substates_view().contains_key(id) {
                (substate_store.substates_view()[id].version + 1) as u32
            } else {
                0u32
            }),
        forall|v: ObjectId|
            #[trigger] r.fee_payments.contains_abs(v) <==> (exists|k: int|
                0 <= k < fee_reserve.locked_fees@.len() && (
                #[trigger] fee_reserve.locked_fees@[k]).0 == v),
        forall|v: ObjectId|
            #[trigger] r.fee_payments.contains_abs(v) ==> r.fee_payments.at_abs(v).units as int
                == paid_to(
                spec_settle(
                    fee_reserve.locked_fees@,
                    spec_required(fee_reserve),
                    invoke_result is Ok,
                ).0,
                v,
            ),
        exists|m: OrderedMap<SubstateId, (PersistedSubstate, Option<u32>)>|
            #[trigger] settled_updates_match(
                substate_store,
                &loaded_substates,
                fee_reserve.locked_fees@,
                spec_required(fee_reserve),
                invoke_result is Ok,
                m,
            ) && summary_describes(substate_store, &m, r.state_update_summary),
{
    let is_success = match &invoke_result {
        Ok(_) => true,
        Err(_) => false,
    };
    let ghost loaded0 = loaded_substates;
    let mut state_updates = select_state_updates(loaded_substates, is_success);
    let ghost selected0 = state_updates;
    let fee_summary = fee_reserve.finalize();
    let required = fee_summary.total_execution_cost_xrd.add(
        fee_summary.total_royalty_cost_xrd,
    ).sub(fee_summary.total_bad_debt_xrd);
    proof {
        assert(0 <= required.units < 2 * AMOUNT_BOUND);
        assert forall|k: int|
            0 <= k < fee_summary.locked_fees@.len() implies {
            let vid = vault_liquid_id((#[trigger] fee_summary.locked_fees@[k]).0);
            &&& state_updates.contains_abs(vid)
            &&& state_updates.at_abs(vid).0.abs() matches SubstateAbs::VaultLiquidFungible(l)
                && 0 <= l.amount_units.units < AMOUNT_BOUND
        } by {
            assert(fee_summary.locked_fees@[k] == fee_reserve.locked_fees@[k]);
        }
    }
    let fee_payments = settle_fees(&mut state_updates, &fee_summary.locked_fees, required, is_success);
    let state_update_summary = summarize_update(substate_store, &state_updates);
    proof {
        assert forall|i: int|
            0 <= i < state_updates.entries().len() implies !((
        #[trigger] state_updates.entries()[i]).0.abs().offset is IterableMap) by {
            state_updates.lemma_index_unique(i);
            let id = state_updates.entries()[i].0.abs();
            assert(selected0.contains_abs(id));
            let j = loaded0.index_of_abs(id);
            loaded0.lemma_index_unique(j);
        }
        assert forall|i: int|
            0 <= i < state_updates.entries().len()
                && substate_store.substates_view().contains_key(
                (#[trigger] state_updates.entries()[i]).0.abs(),
            ) implies substate_store.substates_view()[state_updates.entries()[i].0.abs()].version
            < u32::MAX by {
            state_updates.lemma_index_unique(i);
            let id = state_updates.entries()[i].0.abs();
            assert(selected0.contains_abs(id));
            let j = loaded0.index_of_abs(id);
            loaded0.lemma_index_unique(j);
        }
    }
    let ghost settled0 = state_updates;
    let diff = generate_diff(substate_store, state_updates, iterable_nodes);
    proof {
        assert forall|k: int|
            0 <= k < fee_reserve.locked_fees@.len() implies {
            let v = (#[trigger] fee_reserve.locked_fees@[k]).0;
            let vid = vault_liquid_id(v);
            diff.up_substates.at_abs(vid).substate.abs()
                matches SubstateAbs::VaultLiquidFungible(l) && l.amount_units.units as int
                == selected_value_abs(&loaded0, is_success, vid)->VaultLiquidFungible_0
                .amount_units.units + locked_sum(fee_reserve.locked_fees@, v) - paid_to(
                spec_settle(fee_reserve.locked_fees@, spec_required(fee_reserve), is_success).0,
                v,
            )
        } by {
            let v = fee_reserve.locked_fees@[k].0;
            let vid = vault_liquid_id(v);
            assert(fee_summary.locked_fees@[k] == fee_reserve.locked_fees@[k]);
            assert(fee_summary.locked_fees@ == fee_reserve.locked_fees@);
            assert(selected0.contains_abs(vid));
            assert(selected0.at_abs(vid).0.abs() == selected_value_abs(&loaded0, is_success, vid));
            assert(dirty_vault_amount(&selected0, v) == selected_value_abs(
                &loaded0,
                is_success,
                vid,
            )->VaultLiquidFungible_0.amount_units.units);
            assert(required.units as int == spec_required(fee_reserve));
            assert(settled0.contains_abs(vid));
            assert(diff.up_substates.at_abs(vid).substate == settled0.at_abs(vid).0);
        }
    }
    proof {
        assert(required.units as int == spec_required(fee_reserve));
        assert(fee_summary.locked_fees@ == fee_reserve.locked_fees@);
        assert forall|k: int|
            0 <= k < fee_reserve.locked_fees@.len() implies {
            let v = (#[trigger] fee_reserve.locked_fees@[k]).0;
            let vid = vault_liquid_id(v);
            settled0.at_abs(vid).0.abs() matches SubstateAbs::VaultLiquidFungible(l)
                && l.amount_units.units as int == selected_value_abs(
                &loaded0,
                is_success,
                vid,
            )->VaultLiquidFungible_0.amount_units.units + locked_sum(
                fee_reserve.locked_fees@,
                v,
            ) - paid_to(
                spec_settle(fee_reserve.locked_fees@, spec_required(fee_reserve), is_success).0,
                v,
            )
        } by {
            assert(fee_summary.locked_fees@[k] == fee_reserve.locked_fees@[k]);
            let v = fee_reserve.locked_fees@[k].0;
            let vid = vault_liquid_id(v);
            assert(selected0.contains_abs(vid));
            assert(dirty_vault_amount(&selected0, v) == selected_value_abs(
                &loaded0,
                is_success,
                vid,
            )->VaultLiquidFungible_0.amount_units.units);
        }
        assert forall|id: SubstateIdAbs|
            #[trigger] settled0.contains_abs(id) implies settled0.at_abs(id).1 == (
        match loaded0.at_abs(id).metastate.abs() {
            MetaAbs::New => None::<u32>,
            MetaAbs::Existing { old_version, .. } => Some(old_version),
        }) by {
            if is_fee_vault_id(fee_reserve.locked_fees@, id) {
                let k = choose|k: int|
                    0 <= k < fee_reserve.locked_fees@.len() && vault_liquid_id(
                        (#[trigger] fee_reserve.locked_fees@[k]).0,
                    ) == id;
                assert(fee_summary.locked_fees@[k] == fee_reserve.locked_fees@[k]);
                assert(settled0.at_abs(id).1 == selected0.at_abs(id).1);
            } else {
                assert(settled0.at_abs(id) == selected0.at_abs(id));
            }
        }
        assert(settled_updates_match(
            substate_store,
            &loaded0,
            fee_reserve.locked_fees@,
            spec_required(fee_reserve),
            is_success,
            settled0,
        ));
        assert(summary_describes(substate_store, &settled0, state_update_summary));
    }
    let outcome = match invoke_result {
        Ok(output) => TransactionOutcome::Success(output),
        Err(error) => TransactionOutcome::Failure(error),
    };
    CommitResult {
        state_updates: diff,
        state_update_summary,
        outcome,
        fee_summary,
        fee_payments,
        application_events,
        application_logs,
    }
}

/// Whether `id` is the liquid substate key of a royalty recipient vault.
pub open spec fn is_royalty_vault_id(pays: Seq<(ObjectId, Decimal)>, id: SubstateIdAbs) -> bool {
    exists|k: int| 0 <= k < pays.len() && vault_liquid_id((#[trigger] pays[k]).0) == id
}

/// The total royalty owed to one vault.
pub open spec fn royalty_sum(pays: Seq<(ObjectId, Decimal)>, v: ObjectId) -> int
    decreases pays.len(),
{
    if pays.len() == 0 {
        0
    } else {
        royalty_sum(pays.drop_last(), v) + if pays.last().0 == v {
            pays.last().1.units as int
        } else {
            0
        }
    }
}

/// With non-negative payments, a royalty sum is non-negative.
pub proof fn lemma_royalty_sum_nonneg(pays: Seq<(ObjectId, Decimal)>, v: ObjectId)
    requires
        forall|k: int| 0 <= k < pays.len() ==> (#[trigger] pays[k]).1.units >= 0,
    ensures
        royalty_sum(pays, v) >= 0,
    decreases pays.len(),
{
    if pays.len() > 0 {
        assert(pays[pays.len() - 1] == pays.last());
        assert(forall|k: int|
            0 <= k < pays.drop_last().len() ==> (#[trigger] pays.drop_last()[k]).1.units >= 0);
        lemma_royalty_sum_nonneg(pays.drop_last(), v);
    }
}

/// With non-negative payments, every prefix sum sits between zero and the
/// whole sum.
pub proof fn lemma_royalty_sum_take(pays: Seq<(ObjectId, Decimal)>, m: int, v: ObjectId)
    requires
        forall|k: int| 0 <= k < pays.len() ==> (#[trigger] pays[k]).1.units >= 0,
        0 <= m <= pays.len(),
    ensures
        0 <= royalty_sum(pays.take(m), v) <= royalty_sum(pays, v),
    decreases pays.len() - m,
{
    assert(forall|k: int|
        0 <= k < pays.take(m).len() ==> (#[trigger] pays.take(m)[k]).1.units >= 0);
    lemma_royalty_sum_nonneg(pays.take(m), v);
    if m == pays.len() {
        assert(pays.take(m) =~= pays);
    } else {
        lemma_royalty_sum_take(pays, m + 1, v);
        assert(pays.take(m + 1).drop_last() =~= pays.take(m));
        assert(pays.take(m + 1).last() == pays[m]);
        assert(royalty_sum(pays.take(m + 1), v) == royalty_sum(pays.take(m), v) + (
        if pays[m].0 == v {
            pays[m].1.units as int
        } else {
            0int
        }));
    }
}

/// What crediting does to a row's metadata: a freshly loaded row becomes
/// updated, everything else keeps its standing.
pub open spec fn credited_meta(m: MetaAbs) -> MetaAbs {
    match m {
        MetaAbs::New => MetaAbs::New,
        MetaAbs::Existing { old_version, state: ExistingMetaAbs::Loaded } => MetaAbs::Existing {
            old_version,
            state: ExistingMetaAbs::Updated(None),
        },
        MetaAbs::Existing { old_version, state } => MetaAbs::Existing { old_version, state },
    }
}

/// Every royalty payment is non-negative, lands on a loaded liquid fungible
/// row, and the row's final total stays within the amount bounds.
pub open spec fn royalty_applicable(
    loaded: &OrderedMap<SubstateId, LoadedSubstate>,
    pays: Seq<(ObjectId, Decimal)>,
) -> bool {
    forall|k: int|
        0 <= k < pays.len() ==> {
            let v = (#[trigger] pays[k]).0;
            let vid = vault_liquid_id(v);
            &&& pays[k].1.units >= 0
            &&& loaded.contains_abs(vid)
            &&& loaded.at_abs(vid).substate.abs() matches SubstateAbs::VaultLiquidFungible(l)
                && 0 <= l.amount_units.units && l.amount_units.units as int + royalty_sum(pays, v)
                < AMOUNT_BOUND
        }
}

/// Credits each royalty payment into its recipient vault's loaded row and
/// marks the row updated. Crediting never fails a commit: a payment whose
/// vault row is missing, of another kind, or whose new amount would leave
/// the amount bounds is skipped — and when every payment is applicable, each
/// recipient row ends at its old amount plus everything owed to it.
#[verifier::rlimit(100)]
#[verifier::spinoff_prover]
fn credit_royalties(
    loaded: &mut OrderedMap<SubstateId, LoadedSubstate>,
    payments: &Vec<(ObjectId, Decimal)>,
)
    requires
        old(loaded).wf(),
    ensures
        final(loaded).wf(),
        final(loaded).entries().len() == old(loaded).entries().len(),
        forall|i: int|
            0 <= i < old(loaded).entries().len() ==> (#[trigger] final(loaded).entries()[i]).0
                == old(loaded).entries()[i].0,
        forall|id: SubstateIdAbs|
            #[trigger] final(loaded).contains_abs(id) == old(loaded).contains_abs(id),
        forall|id: SubstateIdAbs|
            old(loaded).contains_abs(id) && !is_royalty_vault_id(payments@, id)
                ==> #[trigger] final(loaded).at_abs(id) == old(loaded).at_abs(id),
        forall|id: SubstateIdAbs|
            old(loaded).contains_abs(id) ==> {
                let r0 = old(loaded).at_abs(id);
                let r1 = #[trigger] final(loaded).at_abs(id);
                &&& r1.substate.is_persistable() == r0.substate.is_persistable()
                &&& ((r0.substate.abs() matches SubstateAbs::VaultLiquidFungible(l) && 0
                    <= l.amount_units.units < AMOUNT_BOUND) ==> (r1.substate.abs()
                    matches SubstateAbs::VaultLiquidFungible(l2) && 0 <= l2.amount_units.units
                    < AMOUNT_BOUND))
            },
        royalty_applicable(old(loaded), payments@) ==> forall|k: int|
            0 <= k < payments@.len() ==> {
                let v = (#[trigger] payments@[k]).0;
                let vid = vault_liquid_id(v);
                let r0 = old(loaded).at_abs(vid);
                let r1 = final(loaded).at_abs(vid);
                &&& r1.substate.abs() matches SubstateAbs::VaultLiquidFungible(l2)
                    && l2.amount_units.units as int == r0.substate.abs()->VaultLiquidFungible_0
                    .amount_units.units + royalty_sum(payments@, v)
                &&& r1.metastate.abs() == credited_meta(r0.metastate.abs())
                &&& r1.lock_state == r0.lock_state
            },
{
    let ghost pays = payments@;
    let ghost applicable = royalty_applicable(old(loaded), pays);
    let n = payments.len();
    let mut k: usize = 0;
    while k < n
        invariant
            loaded.wf(),
            n == pays.len(),
            k <= n,
            pays == payments@,
            applicable == royalty_applicable(old(loaded), pays),
            loaded.entries().len() == old(loaded).entries().len(),
            forall|i: int|
                0 <= i < old(loaded).entries().len() ==> (#[trigger] loaded.entries()[i]).0
                    == old(loaded).entries()[i].0,
            forall|id: SubstateIdAbs|
                #[trigger] loaded.contains_abs(id) == old(loaded).contains_abs(id),
            forall|id: SubstateIdAbs|
                old(loaded).contains_abs(id) && !is_royalty_vault_id(pays, id)
                    ==> #[trigger] loaded.at_abs(id) == old(loaded).at_abs(id),
            forall|id: SubstateIdAbs|
                old(loaded).contains_abs(id) ==> {
                    let r0 = old(loaded).at_abs(id);
                    let r1 = #[trigger] loaded.at_abs(id);
                    &&& r1.substate.is_persistable() == r0.substate.is_persistable()
                    &&& ((r0.substate.abs() matches SubstateAbs::VaultLiquidFungible(l) && 0
                        <= l.amount_units.units < AMOUNT_BOUND) ==> (r1.substate.abs()
                        matches SubstateAbs::VaultLiquidFungible(l2) && 0
                        <= l2.amount_units.units < AMOUNT_BOUND))
                },
            applicable ==> forall|t: int|
                0 <= t < pays.len() ==> {
                    let v = (#[trigger] pays[t]).0;
                    let vid = vault_liquid_id(v);
                    let r0 = old(loaded).at_abs(vid);
                    let r1 = loaded.at_abs(vid);
                    &&& r1.substate.abs() matches SubstateAbs::VaultLiquidFungible(l2)
                        && l2.amount_units.units as int == r0.substate.abs()
                        ->VaultLiquidFungible_0.amount_units.units + royalty_sum(
                        pays.take(k as int),
                        v,
                    )
                    &&& r1.metastate.abs() == (if royalty_sum(pays.take(k as int), v) == 0
                        && !(exists|t2: int|
                        0 <= t2 < k && (#[trigger] pays[t2]).0 == v) {
                        r0.metastate.abs()
                    } else {
                        credited_meta(r0.metastate.abs())
                    })
                    &&& r1.lock_state == r0.lock_state
                },
        decreases n - k,
    {
        let (vault, amount) = payments[k];
        proof {
            assert(pays[k as int] == (vault, amount));
        }
        let key = SubstateId(
            RENodeId::Object(vault),
            NodeModuleId::SELF,
            SubstateOffset::Vault(VaultOffset::LiquidFungible),
        );
        let ghost pre = *loaded;
        proof {
            if applicable {
                lemma_royalty_sum_take(pays, k as int, vault);
                lemma_royalty_sum_take(pays, k as int + 1, vault);
                assert(pays.take(k as int + 1).drop_last() =~= pays.take(k as int));
                assert(pays.take(k as int + 1).last() == pays[k as int]);
            }
        }
        match loaded.index_of(&key) {
            None => {
                proof {
                    if applicable {
                        assert(loaded.contains_abs(key.abs()));
                        assert(false);
                    }
                }
            },
            Some(i) => {
                proof {
                    loaded.lemma_index_unique(i as int);
                }
                let row = loaded.value_at(i);
                let current: Option<Decimal> = match &row.substate {
                    RuntimeSubstate::VaultLiquidFungible(l) => Some(l.amount_units),
                    _ => None,
                };
                match current {
                    None => {
                        proof {
                            if applicable {
                                assert(false);
                            }
                        }
                    },
                    Some(cur) => {
                        if !cur.is_negative() && !amount.is_negative() && amount.units
                            < AMOUNT_BOUND && cur.units < AMOUNT_BOUND - amount.units {
                            let lock_state = row.lock_state;
                            let metastate = match &row.metastate {
                                SubstateMetaState::New => SubstateMetaState::New,
                                SubstateMetaState::Existing {
                                    old_version,
                                    state: ExistingMetaState::Loaded,
                                } => SubstateMetaState::Existing {
                                    old_version: *old_version,
                                    state: ExistingMetaState::Updated(None),
                                },
                                SubstateMetaState::Existing {
                                    old_version,
                                    state: ExistingMetaState::Updated(None),
                                } => SubstateMetaState::Existing {
                                    old_version: *old_version,
                                    state: ExistingMetaState::Updated(None),
                                },
                                SubstateMetaState::Existing {
                                    old_version,
                                    state: ExistingMetaState::Updated(Some(snap)),
                                } => SubstateMetaState::Existing {
                                    old_version: *old_version,
                                    state: ExistingMetaState::Updated(Some(snap.duplicate())),
                                },
                            };
                            let new_row = LoadedSubstate {
                                substate: RuntimeSubstate::VaultLiquidFungible(
                                    LiquidFungibleResource { amount_units: cur.add(amount) },
                                ),
                                lock_state,
                                metastate,
                            };
                            loaded.set_value_at(i, new_row);
                            proof {
                                assert(vault_liquid_id(vault) == key.abs());
                                assert(is_royalty_vault_id(pays, key.abs()));
                                assert forall|id: SubstateIdAbs|
                                    old(loaded).contains_abs(id) && !is_royalty_vault_id(
                                        pays,
                                        id,
                                    ) implies #[trigger] loaded.at_abs(id) == old(
                                    loaded,
                                ).at_abs(id) by {
                                    if id != key.abs() {
                                        assert(loaded.at_abs(id) == pre.at_abs(id));
                                    }
                                }
                                if applicable {
                                    assert forall|t: int|
                                        0 <= t < pays.len() implies {
                                        let v = (#[trigger] pays[t]).0;
                                        let vid = vault_liquid_id(v);
                                        let r0 = old(loaded).at_abs(vid);
                                        let r1 = loaded.at_abs(vid);
                                        &&& r1.substate.abs()
                                            matches SubstateAbs::VaultLiquidFungible(l2)
                                            && l2.amount_units.units as int == r0.substate.abs()
                                            ->VaultLiquidFungible_0.amount_units.units
                                            + royalty_sum(pays.take(k as int + 1), v)
                                        &&& r1.metastate.abs() == (if royalty_sum(
                                            pays.take(k as int + 1),
                                            v,
                                        ) == 0 && !(exists|t2: int|
                                            0 <= t2 < k + 1 && (#[trigger] pays[t2]).0 == v) {
                                            r0.metastate.abs()
                                        } else {
                                            credited_meta(r0.metastate.abs())
                                        })
                                        &&& r1.lock_state == r0.lock_state
                                    } by {
                                        let v = pays[t].0;
                                        let vid = vault_liquid_id(v);
                                        if vid == key.abs() {
                                            assert(v == vault);
                                            assert(royalty_sum(pays.take(k as int + 1), v)
                                                == royalty_sum(pays.take(k as int), v)
                                                + amount.units);
                                        } else {
                                            assert(loaded.at_abs(vid) == pre.at_abs(vid));
                                            assert(royalty_sum(pays.take(k as int + 1), v)
                                                == royalty_sum(pays.take(k as int), v));
                                        }
                                    }
                                }
                            }
                        } else {
                            proof {
                                if applicable {
                                    assert(loaded.at_abs(key.abs()).substate.abs()
                                        matches SubstateAbs::VaultLiquidFungible(l));
                                    assert(false);
                                }
                            }
                        }
                    },
                }
            },
        }
        k = k + 1;
    }
    proof {
        if applicable {
            assert(pays.take(n as int) =~= pays);
            assert forall|k2: int|
                0 <= k2 < pays.len() implies !(royalty_sum(pays.take(n as int), (
            #[trigger] pays[k2]).0) == 0 && !(exists|t2: int|
                0 <= t2 < n && (#[trigger] pays[t2]).0 == pays[k2].0)) by {
                assert(pays[k2].0 == pays[k2].0);
            }
        }
    }
}

/// Whether the one last repayment attempt at finalization succeeds.
pub open spec fn spec_repay_ok(fee_reserve: SystemLoanFeeReserve) -> bool {
    !fee_reserve.abort_when_loan_repaid && fee_reserve.xrd_balance.units
        >= fee_reserve.loan_balance.units
}

/// The error the failed repayment attempt raises.
pub open spec fn spec_repay_error(fee_reserve: SystemLoanFeeReserve) -> FeeReserveError {
    if fee_reserve.abort_when_loan_repaid {
        FeeReserveError::Abort(AbortReason::ConfiguredAbortTriggeredOnFeeLoanRepayment)
    } else {
        FeeReserveError::LoanRepaymentFailed
    }
}

/// The execution result after the one last repayment attempt: a success
/// whose loan could not be repaid becomes the repayment error.
pub open spec fn spec_adjusted_result(
    invoke_result: Result<Vec<InstructionOutput>, RuntimeError>,
    fee_reserve: SystemLoanFeeReserve,
) -> Result<Vec<InstructionOutput>, RuntimeError> {
    if !spec_repay_ok(fee_reserve) && invoke_result is Ok {
        Err(
            RuntimeError::ModuleError(
                ModuleError::CostingError(
                    CostingError::FeeReserveError(spec_repay_error(fee_reserve)),
                ),
            ),
        )
    } else {
        invoke_result
    }
}

/// Whether the loan stands fully repaid after the last attempt.
pub open spec fn spec_repaid_after(fee_reserve: SystemLoanFeeReserve) -> bool {
    spec_repay_ok(fee_reserve) || fee_reserve.loan_balance.units == 0
}

impl<'s, S: ReadableSubstateStore> Track<'s, S> {
    /// Finalizes the transaction: tries one last loan repayment, classifies
    /// the outcome, and either rejects or aborts with no state change at
    /// all, or commits — crediting royalties on success, reverting them on
    /// failure, keeping events only on success and logs always, draining the
    /// overlay into the diff and settling the locked fees.
    #[verifier::rlimit(100)]
    #[verifier::spinoff_prover]
    pub fn finalize(
        self,
        invoke_result: Result<Vec<InstructionOutput>, RuntimeError>,
        fee_reserve: SystemLoanFeeReserve,
        application_events: Vec<(EventTypeIdentifier, Vec<u8>)>,
        application_logs: Vec<(Level, String)>,
    ) -> (r: TransactionResult)
        requires
            self.inv(),
            fee_reserve.wf(),
            fee_reserve.locked_fees@.len() <= MAX_FEE_LOCKS,
            spec_determine_result_type(
                spec_adjusted_result(invoke_result, fee_reserve),
                spec_repaid_after(fee_reserve),
            ) is Commit ==> {
                &&& (spec_adjusted_result(invoke_result, fee_reserve) is Ok ==> forall|i: int|
                    0 <= i < self.loaded_substates.entries().len() ==> (
                    #[trigger] self.loaded_substates.entries()[i]).1.substate.is_persistable())
                &&& (forall|i: int|
                    0 <= i < self.loaded_substates.entries().len() ==> !((
                    #[trigger] self.loaded_substates.entries()[i]).0.abs().offset
                        is IterableMap))
                &&& (forall|i: int|
                    0 <= i < self.loaded_substates.entries().len()
                        && self.substate_store.substates_view().contains_key(
                        (#[trigger] self.loaded_substates.entries()[i]).0.abs(),
                    ) ==> self.substate_store.substates_view()[self.loaded_substates.entries()[i].0.abs()].version
                        < u32::MAX)
                &&& loaded_fee_vaults_covered(
                    &self.loaded_substates,
                    fee_reserve.locked_fees@,
                    spec_adjusted_result(invoke_result, fee_reserve) is Ok,
                )
            },
        ensures
            ({
                let adjusted = spec_adjusted_result(invoke_result, fee_reserve);
                let classified = spec_determine_result_type(
                    adjusted,
                    spec_repaid_after(fee_reserve),
                );
                match classified {
                    TransactionResultType::Reject(e) => r matches TransactionResult::Reject(rr)
                        && rr.error == e,
                    TransactionResultType::Abort(a) => r matches TransactionResult::Abort(ar)
                        && ar.reason == a,
                    TransactionResultType::Commit(res) => r matches TransactionResult::Commit(c)
                        && {
                        let is_success = res is Ok;
                        &&& c.outcome == (match res {
                            Ok(outputs) => TransactionOutcome::Success(outputs),
                            Err(e) => TransactionOutcome::Failure(e),
                        })
                        &&& c.application_logs@ == application_logs@
                        &&& c.application_events@ == (if is_success {
                            application_events@
                        } else {
                            Seq::<(EventTypeIdentifier, Vec<u8>)>::empty()
                        })
                        &&& c.fee_summary.total_execution_cost_xrd == fee_reserve.execution_cost
                        &&& c.fee_summary.total_bad_debt_xrd == fee_reserve.bad_debt
                        &&& c.fee_summary.total_royalty_cost_xrd.units == (if is_success {
                            fee_reserve.royalty_cost.units
                        } else {
                            0
                        })
                        &&& c.fee_summary.locked_fees@ == fee_reserve.locked_fees@
                        &&& (forall|id: SubstateIdAbs|
                            #[trigger] c.state_updates.up_substates.contains_abs(id)
                                == selected_contains(&self.loaded_substates, is_success, id))
                        &&& (forall|v: ObjectId|
                            #[trigger] c.fee_payments.contains_abs(v) <==> (exists|k: int|
                                0 <= k < fee_reserve.locked_fees@.len() && (
                                #[trigger] fee_reserve.locked_fees@[k]).0 == v))
                        &&& (forall|v: ObjectId|
                            #[trigger] c.fee_payments.contains_abs(v)
                                ==> c.fee_payments.at_abs(v).units as int == paid_to(
                                spec_settle(
                                    fee_reserve.locked_fees@,
                                    fee_reserve.execution_cost.units + (if is_success {
                                        fee_reserve.royalty_cost.units as int
                                    } else {
                                        0int
                                    }) - fee_reserve.bad_debt.units,
                                    is_success,
                                ).0,
                                v,
                            ))
                        &&& (forall|id: SubstateIdAbs|
                            #[trigger] c.state_updates.up_substates.contains_abs(id)
                                ==> c.state_updates.up_substates.at_abs(id).version == (
                            if self.substate_store.substates_view().contains_key(id) {
                                (self.substate_store.substates_view()[id].version + 1) as u32
                            } else {
                                0u32
                            }))
                        &&& (!is_success ==> (forall|id: SubstateIdAbs|
                            #[trigger] c.state_updates.up_substates.contains_abs(id)
                                && !is_fee_vault_id(fee_reserve.locked_fees@, id)
                                ==> c.state_updates.up_substates.at_abs(id).substate.abs()
                                == selected_value_abs(&self.loaded_substates, false, id)))
                        &&& (!is_success ==> (forall|k: int|
                            0 <= k < fee_reserve.locked_fees@.len() ==> {
                                let v = (#[trigger] fee_reserve.locked_fees@[k]).0;
                                let vid = vault_liquid_id(v);
                                c.state_updates.up_substates.at_abs(vid).substate.abs()
                                    matches SubstateAbs::VaultLiquidFungible(l)
                                    && l.amount_units.units as int == selected_value_abs(
                                    &self.loaded_substates,
                                    false,
                                    vid,
                                )->VaultLiquidFungible_0.amount_units.units + locked_sum(
                                    fee_reserve.locked_fees@,
                                    v,
                                ) - paid_to(
                                    spec_settle(
                                        fee_reserve.locked_fees@,
                                        fee_reserve.execution_cost.units
                                            - fee_reserve.bad_debt.units,
                                        false,
                                    ).0,
                                    v,
                                )
                            }))
                        &&& (!is_success ==> (exists|
                            m: OrderedMap<SubstateId, (PersistedSubstate, Option<u32>)>,
                        |
                            #[trigger] settled_updates_match(
                                self.substate_store,
                                &self.loaded_substates,
                                fee_reserve.locked_fees@,
                                fee_reserve.execution_cost.units - fee_reserve.bad_debt.units,
                                false,
                                m,
                            ) && summary_describes(
                                self.substate_store,
                                &m,
                                c.state_update_summary,
                            )))
                        &&& (is_success && royalty_applicable(
                            &self.loaded_substates,
                            fee_reserve.royalty_payments@,
                        ) ==> (forall|id: SubstateIdAbs|
                            #[trigger] c.state_updates.up_substates.contains_abs(id)
                                && !is_fee_vault_id(fee_reserve.locked_fees@, id)
                                && !is_royalty_vault_id(fee_reserve.royalty_payments@, id)
                                ==> c.state_updates.up_substates.at_abs(id).substate.abs()
                                == selected_value_abs(&self.loaded_substates, true, id)))
                        &&& (is_success && royalty_applicable(
                            &self.loaded_substates,
                            fee_reserve.royalty_payments@,
                        ) ==> (forall|k: int|
                            0 <= k < fee_reserve.royalty_payments@.len() ==> {
                                let v = (#[trigger] fee_reserve.royalty_payments@[k]).0;
                                let vid = vault_liquid_id(v);
                                !is_fee_vault_id(fee_reserve.locked_fees@, vid) ==> {
                                    &&& c.state_updates.up_substates.contains_abs(vid)
                                    &&& c.state_updates.up_substates.at_abs(vid).substate.abs()
                                        matches SubstateAbs::VaultLiquidFungible(l)
                                        && l.amount_units.units as int
                                        == self.loaded_substates.at_abs(vid).substate.abs()
                                        ->VaultLiquidFungible_0.amount_units.units + royalty_sum(
                                        fee_reserve.royalty_payments@,
                                        v,
                                    )
                                }
                            }))
                    },
                }
            }),
    {
        let mut reserve = fee_reserve;
        let mut result = invoke_result;
        match reserve.repay_all() {
            Err(err) => {
                let was_ok = match &result {
                    Ok(_) => true,
                    Err(_) => false,
                };
                if was_ok {
                    result = Err(
                        RuntimeError::ModuleError(
                            ModuleError::CostingError(CostingError::FeeReserveError(err)),
                        ),
                    );
                }
            },
            Ok(()) => {},
        }
        let repaid = reserve.fully_repaid();
        proof {
            assert(result == spec_adjusted_result(invoke_result, fee_reserve));
            assert(repaid == spec_repaid_after(fee_reserve));
        }
        match determine_result_type(result, repaid) {
            TransactionResultType::Reject(error) => TransactionResult::Reject(
                RejectResult { error },
            ),
            TransactionResultType::Abort(reason) => TransactionResult::Abort(
                AbortResult { reason },
            ),
            TransactionResultType::Commit(commit_input) => {
                let is_success = match &commit_input {
                    Ok(_) => true,
                    Err(_) => false,
                };
                let Track {
                    substate_store,
                    mut loaded_substates,
                    iterable_node_reads: _,
                    iterable_node_updates,
                } = self;
                let events: Vec<(EventTypeIdentifier, Vec<u8>)>;
                if is_success {
                    let royalty_payments = reserve.royalty_cost();
                    credit_royalties(&mut loaded_substates, &royalty_payments);
                    events = application_events;
                } else {
                    reserve.revert_royalty();
                    events = Vec::new();
                }
                proof {
                    if commit_input is Ok {
                        assert forall|i: int|
                            0 <= i < loaded_substates.entries().len() implies (
                        #[trigger] loaded_substates.entries()[i]).1.substate.is_persistable() by {
                            loaded_substates.lemma_index_unique(i);
                            let id = loaded_substates.entries()[i].0.abs();
                            self.loaded_substates.lemma_index_unique(i);
                        }
                    }
                    assert forall|k: int|
                        0 <= k < reserve.locked_fees@.len() implies {
                        let vid = vault_liquid_id((#[trigger] reserve.locked_fees@[k]).0);
                        &&& selected_contains(&loaded_substates, commit_input is Ok, vid)
                        &&& selected_value_abs(&loaded_substates, commit_input is Ok, vid)
                            matches SubstateAbs::VaultLiquidFungible(l) && 0
                            <= l.amount_units.units < AMOUNT_BOUND
                    } by {
                        assert(reserve.locked_fees@[k] == fee_reserve.locked_fees@[k]);
                        let vid = vault_liquid_id(reserve.locked_fees@[k].0);
                        assert(selected_contains(
                            &self.loaded_substates,
                            commit_input is Ok,
                            vid,
                        ));
                    }
                }
                let ghost loaded_post = loaded_substates;
                let ghost reserve_post = reserve;
                let commit_result = calculate_commit_result(
                    substate_store,
                    loaded_substates,
                    iterable_node_updates,
                    commit_input,
                    events,
                    application_logs,
                    reserve,
                );
                proof {
                    assert(reserve_post.locked_fees@ == fee_reserve.locked_fees@);
                    assert(reserve_post.execution_cost == fee_reserve.execution_cost);
                    assert(reserve_post.bad_debt == fee_reserve.bad_debt);
                    if commit_input is Ok {
                        assert(reserve_post.royalty_cost == fee_reserve.royalty_cost);
                    } else {
                        assert(reserve_post.royalty_cost.units == 0);
                    }
                    if !(commit_input is Ok) {
                        assert(loaded_post == self.loaded_substates);
                        assert forall|id: SubstateIdAbs|
                            #[trigger] commit_result.state_updates.up_substates.contains_abs(id)
                                && !is_fee_vault_id(fee_reserve.locked_fees@, id) implies
                            commit_result.state_updates.up_substates.at_abs(id).substate.abs()
                            == selected_value_abs(&self.loaded_substates, false, id) by {}
                        let m0 = choose|
                            m: OrderedMap<SubstateId, (PersistedSubstate, Option<u32>)>,
                        |
                            #[trigger] settled_updates_match(
                                substate_store,
                                &loaded_post,
                                reserve_post.locked_fees@,
                                spec_required(reserve_post),
                                false,
                                m,
                            ) && summary_describes(
                                substate_store,
                                &m,
                                commit_result.state_update_summary,
                            );
                        assert(spec_required(reserve_post) == fee_reserve.execution_cost.units
                            - fee_reserve.bad_debt.units);
                        assert(settled_updates_match(
                            self.substate_store,
                            &self.loaded_substates,
                            fee_reserve.locked_fees@,
                            fee_reserve.execution_cost.units - fee_reserve.bad_debt.units,
                            false,
                            m0,
                        ));
                    } else {
                        if royalty_applicable(
                            &self.loaded_substates,
                            fee_reserve.royalty_payments@,
                        ) {
                            assert forall|id: SubstateIdAbs|
                                #[trigger] commit_result.state_updates.up_substates.contains_abs(
                                    id,
                                ) && !is_fee_vault_id(fee_reserve.locked_fees@, id)
                                    && !is_royalty_vault_id(fee_reserve.royalty_payments@, id)
                                    implies
                                commit_result.state_updates.up_substates.at_abs(
                                    id,
                                ).substate.abs() == selected_value_abs(
                                &self.loaded_substates,
                                true,
                                id,
                            ) by {
                                assert(selected_contains(&loaded_post, true, id));
                                assert(self.loaded_substates.contains_abs(id));
                                assert(loaded_post.at_abs(id) == self.loaded_substates.at_abs(
                                    id,
                                ));
                            }
                            assert forall|k: int|
                                0 <= k < fee_reserve.royalty_payments@.len() implies {
                                let v = (#[trigger] fee_reserve.royalty_payments@[k]).0;
                                let vid = vault_liquid_id(v);
                                !is_fee_vault_id(fee_reserve.locked_fees@, vid) ==> {
                                    &&& commit_result.state_updates.up_substates.contains_abs(
                                        vid,
                                    )
                                    &&& commit_result.state_updates.up_substates.at_abs(
                                        vid,
                                    ).substate.abs() matches SubstateAbs::VaultLiquidFungible(l)
                                        && l.amount_units.units as int
                                        == self.loaded_substates.at_abs(vid).substate.abs()
                                        ->VaultLiquidFungible_0.amount_units.units + royalty_sum(
                                        fee_reserve.royalty_payments@,
                                        v,
                                    )
                                }
                            } by {
                                let v = fee_reserve.royalty_payments@[k].0;
                                let vid = vault_liquid_id(v);
                                assert(self.loaded_substates.contains_abs(vid));
                                assert(loaded_post.contains_abs(vid));
                                assert(selected_contains(&loaded_post, true, vid));
                            }
                        }
                    }
                }
                TransactionResult::Commit(commit_result)
            },
        }
    }
}

} // verus!
