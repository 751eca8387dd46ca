use state_track::addressing::{
    EntityType, NodeModuleId, ObjectId, RENodeId, SubstateId, SubstateOffset, VaultOffset,
};
use state_track::collections::OrderedMap;
use state_track::decimal::Decimal;
use state_track::errors::{ApplicationError, RejectionError, RuntimeError, TransactionProcessorError};
use state_track::fees::{CostingError, FeeReserveError};
use state_track::finalization::generate_diff;
use state_track::receipt::AbortReason;
use state_track::resources::{remove_intersection, IdSet, LiquidFungibleResource};

use state_track::store::{
    OutputValue, ReadableSubstateStore, SerializedInMemorySubstateStore, WriteableSubstateStore,
};
use state_track::substates::{PersistedSubstate, RuntimeSubstate, ScryptoValue};
use state_track::track::{
    determine_result_type, LockFlags, LockState, Track, TrackError, TransactionResultType,
};
use state_track::accounting::prune_resource_changes;
use state_track::addressing::Digest;
use state_track::fees::SystemLoanFeeReserve;
use state_track::id_allocator::{AllocateEntityType, IdAllocator};
use state_track::receipt::BalanceChange;

fn vault_node() -> RENodeId {
    RENodeId::Object(ObjectId {
        kind: 1,
        hash_part: 7,
        index: 0,
    })
}

fn vault_liquid_substate_id() -> SubstateId {
    SubstateId(
        vault_node(),
        NodeModuleId::SELF,
        SubstateOffset::Vault(VaultOffset::LiquidFungible),
    )
}

fn store_with_vault(amount: i128) -> SerializedInMemorySubstateStore {
    let mut store = SerializedInMemorySubstateStore::new();
    store.put_substate(
        vault_liquid_substate_id(),
        OutputValue {
            substate: PersistedSubstate::VaultLiquidFungible(LiquidFungibleResource {
                amount_units: Decimal { units: amount },
            }),
            version: 7,
        },
    );
    store
}

#[test]
fn second_mutable_lock_fails() {
    let store = store_with_vault(100);
    let mut track = Track::new(&store);
    assert!(track
        .acquire_lock(vault_liquid_substate_id(), LockFlags::mutable())
        .is_ok());
    let second = track.acquire_lock(vault_liquid_substate_id(), LockFlags::mutable());
    assert_eq!(
        second,
        Err(TrackError::SubstateLocked(
            vault_liquid_substate_id(),
            LockState::Write
        ))
    );
}

#[test]
fn reader_blocks_writer_until_release() {
    let store = store_with_vault(100);
    let mut track = Track::new(&store);
    assert!(track
        .acquire_lock(vault_liquid_substate_id(), LockFlags::read_only())
        .is_ok());
    let blocked = track.acquire_lock(vault_liquid_substate_id(), LockFlags::mutable());
    assert_eq!(
        blocked,
        Err(TrackError::SubstateLocked(
            vault_liquid_substate_id(),
            LockState::Read(1)
        ))
    );
    assert!(track.release_lock(vault_liquid_substate_id(), false).is_ok());
    assert!(track
        .acquire_lock(vault_liquid_substate_id(), LockFlags::mutable())
        .is_ok());
}

#[test]
fn internal_reference_cannot_be_persisted() {
    let component = RENodeId::Object(ObjectId {
        kind: 0,
        hash_part: 9,
        index: 3,
    });
    let internal_target = RENodeId::Object(ObjectId {
        kind: 0,
        hash_part: 9,
        index: 4,
    });
    let id = SubstateId(
        component,
        NodeModuleId::SELF,
        SubstateOffset::Component(state_track::addressing::ComponentOffset::State0),
    );
    let mut store = SerializedInMemorySubstateStore::new();
    store.put_substate(
        id.duplicate(),
        OutputValue {
            substate: PersistedSubstate::ComponentState(
                state_track::substates::ComponentStateSubstate {
                    value: ScryptoValue {
                        raw: vec![1, 2, 3],
                        owned_nodes: vec![],
                        references: vec![internal_target],
                    },
                },
            ),
            version: 0,
        },
    );
    let mut track = Track::new(&store);
    assert!(track.acquire_lock(id.duplicate(), LockFlags::mutable()).is_ok());
    assert_eq!(
        track.release_lock(id.duplicate(), false),
        Err(TrackError::InternalRefNotAllowed)
    );
}

#[test]
fn global_reference_release_succeeds() {
    let component = RENodeId::Object(ObjectId {
        kind: 0,
        hash_part: 9,
        index: 3,
    });
    let global_target = RENodeId::GlobalObject(state_track::addressing::Address::Component(
        state_track::addressing::ComponentAddress::Normal(42),
    ));
    let id = SubstateId(
        component,
        NodeModuleId::SELF,
        SubstateOffset::Component(state_track::addressing::ComponentOffset::State0),
    );
    let mut store = SerializedInMemorySubstateStore::new();
    store.put_substate(
        id.duplicate(),
        OutputValue {
            substate: PersistedSubstate::ComponentState(
                state_track::substates::ComponentStateSubstate {
                    value: ScryptoValue {
                        raw: vec![],
                        owned_nodes: vec![],
                        references: vec![global_target],
                    },
                },
            ),
            version: 0,
        },
    );
    let mut track = Track::new(&store);
    assert!(track.acquire_lock(id.duplicate(), LockFlags::mutable()).is_ok());
    assert!(track.release_lock(id.duplicate(), false).is_ok());
}

#[test]
fn non_fungible_symmetric_diff() {
    let mut old_ids = IdSet::new();
    old_ids.insert(1);
    old_ids.insert(2);
    old_ids.insert(3);
    let mut new_ids = IdSet::new();
    new_ids.insert(2);
    new_ids.insert(3);
    new_ids.insert(4);
    remove_intersection(&mut new_ids, &mut old_ids);
    assert_eq!(new_ids.to_vec(), vec![4]);
    assert_eq!(old_ids.to_vec(), vec![1]);
}

#[test]
fn overlay_scan_reflects_edits() {
    let mut store = SerializedInMemorySubstateStore::new();
    let node = vault_node();
    for key in 1..=10u64 {
        store.put_iterable_entry(
            node,
            NodeModuleId::SELF,
            key,
            ScryptoValue {
                raw: vec![key as u8],
                owned_nodes: vec![],
                references: vec![],
            },
        );
    }
    let mut track = Track::new(&store);
    for removed in [1u64, 2, 3] {
        let taken = track
            .remove_from_iterable(&node, &NodeModuleId::SELF, removed)
            .unwrap();
        assert!(taken.is_some());
    }
    for inserted in [20u64, 21] {
        track.insert_into_iterable(
            &node,
            &NodeModuleId::SELF,
            inserted,
            ScryptoValue {
                raw: vec![inserted as u8],
                owned_nodes: vec![],
                references: vec![],
            },
        );
    }
    let first_five = track
        .get_first_in_iterable(&node, &NodeModuleId::SELF, 5)
        .unwrap();
    assert_eq!(first_five.len(), 5);
    let keys: Vec<u64> = first_five
        .iter()
        .map(|(id, _)| match &id.2 {
            SubstateOffset::IterableMap(k) => *k,
            _ => panic!("unexpected offset"),
        })
        .collect();
    assert_eq!(keys, vec![4, 5, 6, 7, 8]);
    for (_, substate) in &first_five {
        match substate {
            RuntimeSubstate::IterableEntry(_) => {}
            _ => panic!("unexpected substate kind"),
        }
    }
    // Removing an already-removed key is idempotent: the second read gives
    // nothing without touching the store again.
    let again = track
        .remove_from_iterable(&node, &NodeModuleId::SELF, 1)
        .unwrap();
    assert!(again.is_none());
}

#[test]
fn unpaid_loan_rejects() {
    let outcome = determine_result_type(Ok(vec![]), false);
    match outcome {
        TransactionResultType::Reject(RejectionError::SuccessButFeeLoanNotRepaid) => {}
        _ => panic!("expected rejection"),
    }
    let failed = determine_result_type(
        Err(RuntimeError::SystemError(
            state_track::errors::SystemError::InvalidSubstateWrite,
        )),
        false,
    );
    match failed {
        TransactionResultType::Reject(RejectionError::ErrorBeforeFeeLoanRepaid(_)) => {}
        _ => panic!("expected rejection"),
    }
}

#[test]
fn abort_marker_aborts() {
    let aborted = determine_result_type(
        Err(RuntimeError::ModuleError(
            state_track::errors::ModuleError::CostingError(CostingError::FeeReserveError(
                FeeReserveError::Abort(AbortReason::ConfiguredAbortTriggeredOnFeeLoanRepayment),
            )),
        )),
        true,
    );
    match aborted {
        TransactionResultType::Abort(AbortReason::ConfiguredAbortTriggeredOnFeeLoanRepayment) => {}
        _ => panic!("expected abort"),
    }
}

#[test]
fn epoch_errors_reject() {
    let not_yet = determine_result_type(
        Err(RuntimeError::ApplicationError(
            ApplicationError::TransactionProcessorError(
                TransactionProcessorError::TransactionEpochNotYetValid {
                    valid_from: 10,
                    current_epoch: 5,
                },
            ),
        )),
        true,
    );
    match not_yet {
        TransactionResultType::Reject(RejectionError::TransactionEpochNotYetValid {
            valid_from: 10,
            current_epoch: 5,
        }) => {}
        _ => panic!("expected epoch rejection"),
    }
}

#[test]
fn committed_write_bumps_version() {
    let store = store_with_vault(100);
    let mut updates: OrderedMap<SubstateId, (PersistedSubstate, Option<u32>)> = OrderedMap::new();
    updates.insert_entry(
        vault_liquid_substate_id(),
        (
            PersistedSubstate::VaultLiquidFungible(LiquidFungibleResource {
                amount_units: Decimal { units: 90 },
            }),
            Some(7),
        ),
    );
    let diff = generate_diff(&store, updates, OrderedMap::new());
    assert_eq!(diff.up_substates.pairs.len(), 1);
    assert_eq!(diff.up_substates.pairs[0].1.version, 8);
    assert_eq!(diff.down_substates.len(), 1);
    assert_eq!(diff.down_substates[0].version, 7);
}

#[test]
fn brand_new_key_starts_at_version_zero() {
    let store = SerializedInMemorySubstateStore::new();
    let mut updates: OrderedMap<SubstateId, (PersistedSubstate, Option<u32>)> = OrderedMap::new();
    updates.insert_entry(
        vault_liquid_substate_id(),
        (
            PersistedSubstate::VaultLiquidFungible(LiquidFungibleResource {
                amount_units: Decimal { units: 5 },
            }),
            None,
        ),
    );
    let diff = generate_diff(&store, updates, OrderedMap::new());
    assert_eq!(diff.up_substates.pairs.len(), 1);
    assert_eq!(diff.up_substates.pairs[0].1.version, 0);
    assert!(diff.down_substates.is_empty());
}

#[test]
fn unmodified_base_is_refused_after_update() {
    let store = store_with_vault(100);
    let mut track = Track::new(&store);
    assert!(track
        .acquire_lock(vault_liquid_substate_id(), LockFlags::mutable())
        .is_ok());
    assert!(track.release_lock(vault_liquid_substate_id(), false).is_ok());
    let flags = LockFlags {
        mutable: false,
        unmodified_base: true,
        force_write: false,
    };
    assert_eq!(
        track.acquire_lock(vault_liquid_substate_id(), flags),
        Err(TrackError::LockUnmodifiedBaseOnOnUpdatedSubstate(
            vault_liquid_substate_id()
        ))
    );
}

#[test]
fn entity_type_discriminants_round_trip() {
    for d in 0..=18u8 {
        let t = EntityType::from_repr(d).unwrap();
        assert_eq!(t.id(), d);
    }
    assert!(EntityType::from_repr(19).is_none());
}

#[test]
fn missing_substate_is_not_found() {
    let store = SerializedInMemorySubstateStore::new();
    let mut track = Track::new(&store);
    assert_eq!(
        track.acquire_lock(vault_liquid_substate_id(), LockFlags::read_only()),
        Err(TrackError::NotFound(vault_liquid_substate_id()))
    );
}

#[test]
fn net_zero_balance_change_is_pruned() {
    let lp = state_track::addressing::ResourceAddress::Fungible(3);
    let other = state_track::addressing::ResourceAddress::Fungible(4);
    let mut changes: OrderedMap<state_track::addressing::ResourceAddress, BalanceChange> =
        OrderedMap::new();
    // A vault that was filled and drained by the identical amount nets zero.
    changes.insert_entry(lp, BalanceChange::Fungible(Decimal { units: 0 }));
    changes.insert_entry(other, BalanceChange::Fungible(Decimal { units: 25 }));
    let pruned = prune_resource_changes(changes);
    assert_eq!(pruned.pairs.len(), 1);
    assert_eq!(pruned.pairs[0].0, other);
    // An empty symmetric difference is pruned as well.
    let mut added = IdSet::new();
    added.insert(2);
    let mut removed = IdSet::new();
    removed.insert(2);
    let mut nf: OrderedMap<state_track::addressing::ResourceAddress, BalanceChange> =
        OrderedMap::new();
    nf.insert_entry(lp, BalanceChange::NonFungible { added, removed });
    let nf_pruned = prune_resource_changes(nf);
    assert!(nf_pruned.pairs.is_empty());
}

#[test]
fn fee_reserve_repayment() {
    let mut reserve = SystemLoanFeeReserve::new();
    reserve.loan_balance = Decimal { units: 10 };
    reserve.xrd_balance = Decimal { units: 25 };
    assert!(!reserve.fully_repaid());
    assert!(reserve.repay_all().is_ok());
    assert!(reserve.fully_repaid());
    assert_eq!(reserve.xrd_balance.units, 15);
}

#[test]
fn id_allocator_frames() {
    let mut alloc = IdAllocator::new(Digest { hi: 5, lo: 6 }, vec![]);
    alloc.push();
    let id = alloc.allocate_node_id(AllocateEntityType::Vault).unwrap();
    assert!(alloc.take_node_id(id).is_ok());
    assert!(alloc.pop().is_ok());
    let unknown = RENodeId::AuthZoneStack;
    assert!(alloc.take_node_id(unknown).is_err());
}

#[test]
fn commit_failure_persists_only_fee_vault() {
    // A vault held 100 units; a fee of 10 was locked from it (leaving 90,
    // force-written); execution then failed with an ordinary error while the
    // loan stood repaid. The commit must carry the failure, drop the events,
    // persist exactly the fee vault at 90 (full 10 consumed), and show a
    // balance change of exactly minus 10 for that vault.
    let resource = state_track::addressing::ResourceAddress::Fungible(5);
    let vault_obj = ObjectId {
        kind: 1,
        hash_part: 7,
        index: 0,
    };
    let liquid_id = SubstateId(
        RENodeId::Object(vault_obj),
        NodeModuleId::SELF,
        SubstateOffset::Vault(VaultOffset::LiquidFungible),
    );
    let type_info_id = SubstateId(
        RENodeId::Object(vault_obj),
        NodeModuleId::TypeInfo,
        SubstateOffset::TypeInfo(state_track::addressing::TypeInfoOffset::TypeInfo),
    );
    let mut store = SerializedInMemorySubstateStore::new();
    store.put_substate(
        liquid_id.duplicate(),
        OutputValue {
            substate: PersistedSubstate::VaultLiquidFungible(LiquidFungibleResource {
                amount_units: Decimal { units: 100 },
            }),
            version: 7,
        },
    );
    store.put_substate(
        type_info_id.duplicate(),
        OutputValue {
            substate: PersistedSubstate::TypeInfo(
                state_track::substates::TypeInfoSubstate::Object(
                    state_track::substates::ObjectInfo {
                        blueprint: state_track::substates::Blueprint {
                            package_address: state_track::addressing::PackageAddress::Normal(
                                state_track::accounting::RESOURCE_MANAGER_PACKAGE_ID,
                            ),
                            blueprint_name: state_track::substates::BlueprintName::FungibleVault,
                        },
                        global: false,
                        type_parent: Some(state_track::addressing::Address::Resource(resource)),
                    },
                ),
            ),
            version: 0,
        },
    );

    let mut track = Track::new(&store);
    assert!(track.acquire_lock(liquid_id.duplicate(), LockFlags::mutable()).is_ok());
    track.set_substate(
        &RENodeId::Object(vault_obj),
        NodeModuleId::SELF,
        &SubstateOffset::Vault(VaultOffset::LiquidFungible),
        RuntimeSubstate::VaultLiquidFungible(LiquidFungibleResource {
            amount_units: Decimal { units: 90 },
        }),
    );
    assert!(track.release_lock(liquid_id.duplicate(), true).is_ok());

    let mut reserve = state_track::fees::SystemLoanFeeReserve::new();
    reserve.execution_cost = Decimal { units: 10 };
    reserve.locked_fees = vec![(
        vault_obj,
        state_track::resources::LockedFungibleResource {
            amount_units: Decimal { units: 10 },
        },
        false,
    )];

    let events = vec![(
        state_track::receipt::EventTypeIdentifier {
            emitter: RENodeId::Object(vault_obj),
            local_type_index: 1,
        },
        vec![1u8, 2, 3],
    )];
    let logs = vec![(state_track::receipt::Level::Info, String::from("fee locked"))];

    let result = track.finalize(
        Err(RuntimeError::SystemError(
            state_track::errors::SystemError::InvalidSubstateWrite,
        )),
        reserve,
        events,
        logs,
    );
    match result {
        state_track::receipt::TransactionResult::Commit(c) => {
            assert!(matches!(
                c.outcome,
                state_track::receipt::TransactionOutcome::Failure(_)
            ));
            assert!(c.application_events.is_empty());
            assert_eq!(c.application_logs.len(), 1);
            // The diff holds exactly the force-written fee vault, at 90.
            assert_eq!(c.state_updates.up_substates.pairs.len(), 1);
            let (up_id, up_value) = &c.state_updates.up_substates.pairs[0];
            assert_eq!(*up_id, liquid_id);
            assert_eq!(up_value.version, 8);
            match &up_value.substate {
                PersistedSubstate::VaultLiquidFungible(l) => {
                    assert_eq!(l.amount_units.units, 90);
                }
                _ => panic!("expected the fee vault's liquid row"),
            }
            assert_eq!(c.state_updates.down_substates.len(), 1);
            assert_eq!(c.state_updates.down_substates[0].version, 7);
            // The vault paid the full 10.
            assert_eq!(c.fee_payments.pairs.len(), 1);
            assert_eq!(c.fee_payments.pairs[0].0, vault_obj);
            assert_eq!(c.fee_payments.pairs[0].1.units, 10);
            // The balance summary shows exactly minus 10 for the vault.
            let inner = c
                .state_update_summary
                .direct_vault_updates
                .get_ref(&vault_obj)
                .expect("the drained vault must appear");
            assert_eq!(inner.pairs.len(), 1);
            assert_eq!(inner.pairs[0].0, resource);
            assert_eq!(
                inner.pairs[0].1,
                BalanceChange::Fungible(Decimal { units: -10 })
            );
        }
        _ => panic!("expected a commit"),
    }
}
