use state_track::addressing::{
    Address, ComponentAddress, NodeModuleId, ObjectId, RENodeId, ResourceAddress, SubstateId,
    SubstateOffset, EpochManagerOffset, KeyValueStoreOffset, ResourceManagerOffset, VaultOffset,
};
use state_track::collections::OrderedMap;
use state_track::decimal::Decimal;
use state_track::finalization::generate_diff;
use state_track::receipt::BalanceChange;
use state_track::resources::LiquidFungibleResource;
use state_track::store::{
    ReadableSubstateStore, SerializedInMemorySubstateStore, WriteableSubstateStore,
};
use state_track::substates::{
    EpochManagerSubstate, FungibleResourceManagerSubstate, PersistedSubstate, ScryptoValue,
    ValidatorSetSubstate,
};

#[test]
fn test_bootstrap_receipt_should_match_constants() {
    // A genesis-like commit: the epoch manager and its validator set are
    // brand-new substates, written at version zero, with a validator key of
    // 33 bytes and room for 100 validators.
    let validator_key = vec![0u8; 33];
    assert_eq!(validator_key.len(), 33);
    let epoch_manager = RENodeId::GlobalObject(Address::Component(
        ComponentAddress::EpochManager(1),
    ));
    let mut updates: OrderedMap<SubstateId, (PersistedSubstate, Option<u32>)> = OrderedMap::new();
    updates.insert_entry(
        SubstateId(
            epoch_manager,
            NodeModuleId::SELF,
            SubstateOffset::EpochManager(EpochManagerOffset::EpochManager),
        ),
        (
            PersistedSubstate::EpochManager(EpochManagerSubstate { epoch: 1, round: 0 }),
            None,
        ),
    );
    updates.insert_entry(
        SubstateId(
            epoch_manager,
            NodeModuleId::SELF,
            SubstateOffset::EpochManager(EpochManagerOffset::CurrentValidatorSet),
        ),
        (
            PersistedSubstate::ValidatorSet(ValidatorSetSubstate {
                epoch: 1,
                validator_count: 100,
            }),
            None,
        ),
    );
    let store = SerializedInMemorySubstateStore::new();
    let diff = generate_diff(&store, updates, OrderedMap::new());
    // There should be a new epoch: both substates are up at version zero and
    // nothing is replaced.
    assert_eq!(diff.up_substates.pairs.len(), 2);
    assert!(diff.down_substates.is_empty());
    assert!(diff.up_substates.pairs.iter().all(|(_, v)| v.version == 0));
    match &diff.up_substates.pairs[0].1.substate {
        PersistedSubstate::EpochManager(em) => assert_eq!(em.epoch, 1),
        _ => panic!("expected the epoch manager substate"),
    }
}

#[test]
fn test_genesis_xrd_allocation_to_accounts() {
    // An account is allocated 100 units at genesis: its vault substate is
    // brand-new and carries exactly that amount.
    let allocation_amount = Decimal { units: 100 };
    let vault = RENodeId::Object(ObjectId {
        kind: 1,
        hash_part: 1,
        index: 0,
    });
    let vault_id = SubstateId(
        vault,
        NodeModuleId::SELF,
        SubstateOffset::Vault(VaultOffset::LiquidFungible),
    );
    let mut updates: OrderedMap<SubstateId, (PersistedSubstate, Option<u32>)> = OrderedMap::new();
    updates.insert_entry(
        vault_id.duplicate(),
        (
            PersistedSubstate::VaultLiquidFungible(LiquidFungibleResource {
                amount_units: allocation_amount,
            }),
            None,
        ),
    );
    let mut store = SerializedInMemorySubstateStore::new();
    let diff = generate_diff(&store, updates, OrderedMap::new());
    diff.commit(&mut store);
    let persisted = store.get_substate(&vault_id).unwrap();
    match persisted.substate {
        PersistedSubstate::VaultLiquidFungible(v) => {
            assert_eq!(v.amount_units.units, 100);
        }
        _ => panic!("expected the vault's liquid fungible substate"),
    }
}

#[test]
fn test_genesis_resource_with_initial_allocation() {
    // A genesis resource with an initial allocation of 105 units: the
    // resource manager's total supply shows it, and the symbol metadata
    // entry holds the symbol.
    let allocation_amount = Decimal { units: 105 };
    let resource_address = ResourceAddress::Fungible(77);
    let resource_node = RENodeId::GlobalObject(Address::Resource(resource_address));
    let manager_id = SubstateId(
        resource_node,
        NodeModuleId::SELF,
        SubstateOffset::ResourceManager(ResourceManagerOffset::ResourceManager),
    );
    let symbol_key = b"symbol".to_vec();
    let symbol_id = SubstateId(
        resource_node,
        NodeModuleId::Metadata,
        SubstateOffset::KeyValueStore(KeyValueStoreOffset::Entry(symbol_key)),
    );
    let mut updates: OrderedMap<SubstateId, (PersistedSubstate, Option<u32>)> = OrderedMap::new();
    updates.insert_entry(
        manager_id.duplicate(),
        (
            PersistedSubstate::ResourceManager(FungibleResourceManagerSubstate {
                resource_address,
                divisibility: 18,
                total_supply: allocation_amount,
            }),
            None,
        ),
    );
    updates.insert_entry(
        symbol_id.duplicate(),
        (
            PersistedSubstate::KeyValueStoreEntry(Some(ScryptoValue {
                raw: b"TST".to_vec(),
                owned_nodes: vec![],
                references: vec![],
            })),
            None,
        ),
    );
    let mut store = SerializedInMemorySubstateStore::new();
    let diff = generate_diff(&store, updates, OrderedMap::new());
    diff.commit(&mut store);
    match store.get_substate(&manager_id).unwrap().substate {
        PersistedSubstate::ResourceManager(rm) => {
            assert_eq!(rm.total_supply.units, 105);
        }
        _ => panic!("Failed to get a resource manager substate"),
    }
    match store.get_substate(&symbol_id).unwrap().substate {
        PersistedSubstate::KeyValueStoreEntry(Some(value)) => {
            assert_eq!(value.raw, b"TST".to_vec());
        }
        _ => panic!("Failed to get resource symbol metadata"),
    }
}

#[test]
fn test_genesis_stake_allocation() {
    // Two stakers receive liquidity tokens at genesis: the first holds one
    // balance entry of 10, the second two entries of 1 and 50000. The
    // accountant aggregates each staker's new vaults under the staker's own
    // address.
    let lp_token_0 = ResourceAddress::Fungible(1);
    let lp_token_1 = ResourceAddress::Fungible(2);
    let staker_0 = Address::Component(ComponentAddress::Account(40));
    let staker_1 = Address::Component(ComponentAddress::Account(41));

    let mut store = SerializedInMemorySubstateStore::new();
    let mut updates: OrderedMap<SubstateId, (PersistedSubstate, Option<u32>)> = OrderedMap::new();

    let mut add_stake = |store: &mut SerializedInMemorySubstateStore,
                         updates: &mut OrderedMap<SubstateId, (PersistedSubstate, Option<u32>)>,
                         staker: Address,
                         resource: ResourceAddress,
                         vault_index: u32,
                         amount: i128| {
        let vault = ObjectId {
            kind: 1,
            hash_part: 9,
            index: vault_index,
        };
        store.put_substate(
            SubstateId(
                RENodeId::Object(vault),
                NodeModuleId::TypeInfo,
                SubstateOffset::TypeInfo(state_track::addressing::TypeInfoOffset::TypeInfo),
            ),
            state_track::store::OutputValue {
                substate: PersistedSubstate::TypeInfo(
                    state_track::substates::TypeInfoSubstate::Object(
                        state_track::substates::ObjectInfo {
                            blueprint: state_track::substates::Blueprint {
                                package_address:
                                    state_track::addressing::PackageAddress::Normal(
                                    state_track::accounting::RESOURCE_MANAGER_PACKAGE_ID,
                                ),
                                blueprint_name:
                                    state_track::substates::BlueprintName::FungibleVault,
                            },
                            global: false,
                            type_parent: Some(Address::Resource(resource)),
                        },
                    ),
                ),
                version: 0,
            },
        );
        // The staker's component state owns the vault.
        let root_state_id = SubstateId(
            RENodeId::GlobalObject(staker),
            NodeModuleId::SELF,
            SubstateOffset::Component(state_track::addressing::ComponentOffset::State0),
        );
        match updates.index_of(&root_state_id) {
            Some(i) => {
                let mut owned = match &updates.pairs[i].1 .0 {
                    PersistedSubstate::ComponentState(cs) => cs.value.owned_nodes.clone(),
                    _ => vec![],
                };
                owned.push(RENodeId::Object(vault));
                updates.pairs[i].1 .0 = PersistedSubstate::ComponentState(
                    state_track::substates::ComponentStateSubstate {
                        value: ScryptoValue {
                            raw: vec![],
                            owned_nodes: owned,
                            references: vec![],
                        },
                    },
                );
            }
            None => {
                updates.insert_entry(
                    root_state_id,
                    (
                        PersistedSubstate::ComponentState(
                            state_track::substates::ComponentStateSubstate {
                                value: ScryptoValue {
                                    raw: vec![],
                                    owned_nodes: vec![RENodeId::Object(vault)],
                                    references: vec![],
                                },
                            },
                        ),
                        None,
                    ),
                );
            }
        }
        updates.insert_entry(
            SubstateId(
                RENodeId::Object(vault),
                NodeModuleId::SELF,
                SubstateOffset::Vault(VaultOffset::LiquidFungible),
            ),
            (
                PersistedSubstate::VaultLiquidFungible(LiquidFungibleResource {
                    amount_units: Decimal { units: amount },
                }),
                None,
            ),
        );
    };

    add_stake(&mut store, &mut updates, staker_0, lp_token_0, 0, 10);
    add_stake(&mut store, &mut updates, staker_1, lp_token_0, 1, 50000);
    add_stake(&mut store, &mut updates, staker_1, lp_token_1, 2, 1);

    let (balance_changes, direct) = state_track::accounting::balance_changes(&store, &updates);
    assert!(direct.pairs.is_empty());

    // Staker 0 should have one liquidity balance entry.
    let zero = balance_changes.get_ref(&staker_0).unwrap();
    assert!(zero.pairs.len() == 1);
    assert!(zero
        .pairs
        .iter()
        .any(|(_, bal)| *bal == BalanceChange::Fungible(Decimal { units: 10 })));

    // Staker 1 should have two liquidity balance entries.
    let one = balance_changes.get_ref(&staker_1).unwrap();
    assert!(one.pairs.len() == 2);
    assert!(one
        .pairs
        .iter()
        .any(|(_, bal)| *bal == BalanceChange::Fungible(Decimal { units: 1 })));
    assert!(one
        .pairs
        .iter()
        .any(|(_, bal)| *bal == BalanceChange::Fungible(Decimal { units: 50000 })));
}
