//! The state diff: the only artifact a committed transaction ever hands to
//! the persistent store.

use vstd::prelude::*;
use crate::addressing::{NodeModule, SubstateId, SubstateIdAbs};
use crate::collections::{OrderedMap, SortedU64Map};
use crate::store::{iter_has_key, iter_value_of, OutputId, OutputValue, WriteableSubstateStore};
use crate::substates::ScryptoValue;

verus! {

/// One key's change in a keyed-collection diff.
#[derive(Debug, Clone, PartialEq, Eq)]
pub enum IterableSubstateDiff {
    Insert(ScryptoValue),
    Remove,
}

/// The diff of one keyed collection: freshly created with its entries, or a
/// set of per-key changes against the stored collection.
pub enum IterableNodeDiff {
    New(SortedU64Map<ScryptoValue>),
    Update(SortedU64Map<IterableSubstateDiff>),
}

/// The persisted-store mutations of one committed transaction.
pub struct StateDiff {
    /// The stored rows this transaction replaces, by fingerprint.
    pub down_substates: Vec<OutputId>,
    /// The new versioned rows, by key.
    pub up_substates: OrderedMap<SubstateId, OutputValue>,
    /// The keyed-collection changes.
    pub iterable_nodes_update: OrderedMap<NodeModule, IterableNodeDiff>,
}

impl StateDiff {
    /// The diff's maps are well-formed, and no up key is a collection entry.
    pub open spec fn wf(&self) -> bool {
        &&& self.up_substates.wf()
        &&& self.iterable_nodes_update.wf()
        &&& forall|i: int|
            0 <= i < self.up_substates.entries().len() ==> !((
            #[trigger] self.up_substates.entries()[i]).0.abs().offset is IterableMap)
        &&& forall|i: int|
            0 <= i < self.iterable_nodes_update.entries().len() ==> match (
            #[trigger] self.iterable_nodes_update.entries()[i]).1 {
                IterableNodeDiff::New(m) => m.wf(),
                IterableNodeDiff::Update(m) => m.wf(),
            }
    }

    /// An empty diff.
    pub fn new() -> (r: StateDiff)
        ensures
            r.wf(),
            r.down_substates@ == Seq::<OutputId>::empty(),
            r.up_substates.entries() == Seq::<(SubstateId, OutputValue)>::empty(),
            r.iterable_nodes_update.entries() == Seq::<(NodeModule, IterableNodeDiff)>::empty(),
    {
        StateDiff {
            down_substates: Vec::new(),
            up_substates: OrderedMap::new(),
            iterable_nodes_update: OrderedMap::new(),
        }
    }

    /// Applies the diff to a store, in one pass: every up substate is
    /// written, every keyed-collection change is replayed key by key, and
    /// nothing else moves — untouched keys and untouched collections keep
    /// their stored values.
    #[verifier::rlimit(100)]
    #[verifier::spinoff_prover]
    pub fn commit<S: WriteableSubstateStore>(&self, store: &mut S)
        requires
            old(store).store_inv(),
            self.wf(),
        ensures
            final(store).store_inv(),
            forall|id: SubstateIdAbs|
                self.up_substates.contains_abs(id) ==> final(store).substates_view().contains_key(
                    id,
                ) && final(store).substates_view()[id] == self.up_substates.at_abs(id).abs(),
            forall|id: SubstateIdAbs|
                !self.up_substates.contains_abs(id) ==> (final(store).substates_view(
                ).contains_key(id) == old(store).substates_view().contains_key(id) && (old(
                    store,
                ).substates_view().contains_key(id) ==> final(store).substates_view()[id] == old(
                    store,
                ).substates_view()[id])),
            forall|nm: NodeModule|
                !self.iterable_nodes_update.contains_abs(nm) ==> final(store).iter_view(nm)
                    == old(store).iter_view(nm),
            forall|nm: NodeModule|
                #[trigger] self.iterable_nodes_update.contains_abs(nm)
                    ==> match self.iterable_nodes_update.at_abs(nm) {
                    IterableNodeDiff::New(m) => {
                        &&& (forall|k: u64|
                            #[trigger] m.has_key(k) ==> iter_has_key(
                                final(store).iter_view(nm),
                                k,
                            ) && iter_value_of(final(store).iter_view(nm), k) == m.value_of(
                                k,
                            ).abs())
                        &&& (forall|k: u64|
                            !m.has_key(k) ==> #[trigger] iter_has_key(
                                final(store).iter_view(nm),
                                k,
                            ) == iter_has_key(old(store).iter_view(nm), k))
                        &&& (forall|k: u64|
                            !m.has_key(k) && #[trigger] iter_has_key(
                                old(store).iter_view(nm),
                                k,
                            ) ==> iter_value_of(final(store).iter_view(nm), k) == iter_value_of(
                                old(store).iter_view(nm),
                                k,
                            ))
                    },
                    IterableNodeDiff::Update(u) => {
                        &&& (forall|k: u64|
                            #[trigger] u.has_key(k) ==> match u.value_of(k) {
                                IterableSubstateDiff::Insert(v) => iter_has_key(
                                    final(store).iter_view(nm),
                                    k,
                                ) && iter_value_of(final(store).iter_view(nm), k) == v.abs(),
                                IterableSubstateDiff::Remove => !iter_has_key(
                                    final(store).iter_view(nm),
                                    k,
                                ),
                            })
                        &&& (forall|k: u64|
                            !u.has_key(k) ==> #[trigger] iter_has_key(
                                final(store).iter_view(nm),
                                k,
                            ) == iter_has_key(old(store).iter_view(nm), k))
                        &&& (forall|k: u64|
                            !u.has_key(k) && #[trigger] iter_has_key(
                                old(store).iter_view(nm),
                                k,
                            ) ==> iter_value_of(final(store).iter_view(nm), k) == iter_value_of(
                                old(store).iter_view(nm),
                                k,
                            ))
                    },
                },
    {
        let n = self.up_substates.len();
        let mut i: usize = 0;
        while i < n
            invariant
                store.store_inv(),
                self.wf(),
                n == self.up_substates.entries().len(),
                i <= n,
                forall|j: int|
                    0 <= j < i ==> store.substates_view().contains_key(
                        (#[trigger] self.up_substates.entries()[j]).0.abs(),
                    ) && store.substates_view()[self.up_substates.entries()[j].0.abs()]
                        == self.up_substates.entries()[j].1.abs(),
                forall|id: SubstateIdAbs|
                    !self.up_substates.contains_abs(id) ==> (store.substates_view().contains_key(
                        id,
                    ) == old(store).substates_view().contains_key(id) && (old(
                        store,
                    ).substates_view().contains_key(id) ==> store.substates_view()[id] == old(
                        store,
                    ).substates_view()[id])),
                forall|nm: NodeModule| store.iter_view(nm) == old(store).iter_view(nm),
            decreases n - i,
        {
            let entry_key = self.up_substates.key_at(i);
            let entry_value = self.up_substates.value_at(i);
            let id_copy = entry_key.duplicate();
            let value_copy = OutputValue {
                substate: entry_value.substate.duplicate(),
                version: entry_value.version,
            };
            proof {
                assert(id_copy.abs() == self.up_substates.entries()[i as int].0.abs());
                self.up_substates.lemma_index_unique(i as int);
            }
            store.put_substate(id_copy, value_copy);
            proof {
                assert forall|j: int|
                    0 <= j < i + 1 implies store.substates_view().contains_key(
                    (#[trigger] self.up_substates.entries()[j]).0.abs(),
                ) && store.substates_view()[self.up_substates.entries()[j].0.abs()]
                    == self.up_substates.entries()[j].1.abs() by {
                    if j < i {
                        let ghost a = self.up_substates.entries()[j].0.abs();
                        let ghost b = self.up_substates.entries()[i as int].0.abs();
                        if a != b {
                        } else {
                            self.up_substates.lemma_index_unique(j);
                            self.up_substates.lemma_index_unique(i as int);
                        }
                    }
                }
            }
            i = i + 1;
        }
        let ghost after_up = *store;
        let m = self.iterable_nodes_update.len();
        let mut t: usize = 0;
        while t < m
            invariant
                store.store_inv(),
                self.wf(),
                m == self.iterable_nodes_update.entries().len(),
                t <= m,
                store.substates_view() == after_up.substates_view(),
                forall|nm: NodeModule|
                    !self.iterable_nodes_update.contains_abs(nm) ==> store.iter_view(nm) == old(
                        store,
                    ).iter_view(nm),
                forall|tt: int|
                    t <= tt < m ==> store.iter_view(
                        (#[trigger] self.iterable_nodes_update.entries()[tt]).0,
                    ) == old(store).iter_view(self.iterable_nodes_update.entries()[tt].0),
                forall|tt: int|
                    0 <= tt < t ==> match (
                    #[trigger] self.iterable_nodes_update.entries()[tt]).1 {
                        IterableNodeDiff::New(mm) => {
                            let nm = self.iterable_nodes_update.entries()[tt].0;
                            &&& (forall|k: u64|
                                #[trigger] mm.has_key(k) ==> iter_has_key(store.iter_view(nm), k)
                                    && iter_value_of(store.iter_view(nm), k) == mm.value_of(
                                    k,
                                ).abs())
                            &&& (forall|k: u64|
                                !mm.has_key(k) ==> #[trigger] iter_has_key(store.iter_view(nm), k)
                                    == iter_has_key(old(store).iter_view(nm), k))
                            &&& (forall|k: u64|
                                !mm.has_key(k) && #[trigger] iter_has_key(
                                    old(store).iter_view(nm),
                                    k,
                                ) ==> iter_value_of(store.iter_view(nm), k) == iter_value_of(
                                    old(store).iter_view(nm),
                                    k,
                                ))
                        },
                        IterableNodeDiff::Update(uu) => {
                            let nm = self.iterable_nodes_update.entries()[tt].0;
                            &&& (forall|k: u64|
                                #[trigger] uu.has_key(k) ==> match uu.value_of(k) {
                                    IterableSubstateDiff::Insert(v) => iter_has_key(
                                        store.iter_view(nm),
                                        k,
                                    ) && iter_value_of(store.iter_view(nm), k) == v.abs(),
                                    IterableSubstateDiff::Remove => !iter_has_key(
                                        store.iter_view(nm),
                                        k,
                                    ),
                                })
                            &&& (forall|k: u64|
                                !uu.has_key(k) ==> #[trigger] iter_has_key(store.iter_view(nm), k)
                                    == iter_has_key(old(store).iter_view(nm), k))
                            &&& (forall|k: u64|
                                !uu.has_key(k) && #[trigger] iter_has_key(
                                    old(store).iter_view(nm),
                                    k,
                                ) ==> iter_value_of(store.iter_view(nm), k) == iter_value_of(
                                    old(store).iter_view(nm),
                                    k,
                                ))
                        },
                    },
            decreases m - t,
        {
            let nm = *self.iterable_nodes_update.key_at(t);
            let update = self.iterable_nodes_update.value_at(t);
            let ghost coll_pre = *store;
            proof {
                self.iterable_nodes_update.lemma_index_unique(t as int);
            }
            match update {
                IterableNodeDiff::New(entries) => {
                    let c = entries.len();
                    let mut j: usize = 0;
                    while j < c
                        invariant
                            store.store_inv(),
                            entries.wf(),
                            c == entries.entries().len(),
                            j <= c,
                            store.substates_view() == after_up.substates_view(),
                            forall|onm: NodeModule|
                                onm != nm ==> store.iter_view(onm) == coll_pre.iter_view(
                                    onm,
                                ),
                            forall|jj: int|
                                0 <= jj < j ==> iter_has_key(
                                    store.iter_view(nm),
                                    (#[trigger] entries.entries()[jj]).0,
                                ) && iter_value_of(store.iter_view(nm), entries.entries()[jj].0)
                                    == entries.entries()[jj].1.abs(),
                            forall|k: u64|
                                #![trigger iter_has_key(store.iter_view(nm), k)]
                                #![trigger iter_has_key(coll_pre.iter_view(nm), k)]
                                !(exists|jj: int|
                                    0 <= jj < j && (#[trigger] entries.entries()[jj]).0 == k)
                                    ==> (iter_has_key(store.iter_view(nm), k)
                                    == iter_has_key(coll_pre.iter_view(nm), k) && (
                                iter_has_key(coll_pre.iter_view(nm), k) ==> iter_value_of(
                                    store.iter_view(nm),
                                    k,
                                ) == iter_value_of(coll_pre.iter_view(nm), k))),
                        decreases c - j,
                    {
                        let entry = entries.entry_at(j);
                        store.put_iterable_entry(
                            nm.node_id,
                            nm.module_id,
                            entry.0,
                            entry.1.duplicate(),
                        );
                        proof {
                            assert forall|jj: int|
                                0 <= jj < j + 1 implies iter_has_key(
                                store.iter_view(nm),
                                (#[trigger] entries.entries()[jj]).0,
                            ) && iter_value_of(store.iter_view(nm), entries.entries()[jj].0)
                                == entries.entries()[jj].1.abs() by {
                                if jj < j {
                                    entries.lemma_key_index(jj);
                                    entries.lemma_key_index(j as int);
                                }
                            }
                        }
                        j = j + 1;
                    }
                    proof {
                        assert(coll_pre.iter_view(nm) == old(store).iter_view(nm));
                        assert forall|k: u64|
                            #[trigger] entries.has_key(k) implies iter_has_key(
                            store.iter_view(nm),
                            k,
                        ) && iter_value_of(store.iter_view(nm), k) == entries.value_of(
                            k,
                        ).abs() by {
                            let jj = entries.key_index(k);
                            entries.lemma_key_index(jj);
                        }
                        assert forall|k: u64|
                            !entries.has_key(k) implies (#[trigger] iter_has_key(
                            store.iter_view(nm),
                            k,
                        ) == iter_has_key(old(store).iter_view(nm), k) && (iter_has_key(
                            old(store).iter_view(nm),
                            k,
                        ) ==> iter_value_of(store.iter_view(nm), k) == iter_value_of(
                            old(store).iter_view(nm),
                            k,
                        ))) by {
                            assert(!(exists|jj: int|
                                0 <= jj < entries.entries().len() && (
                                #[trigger] entries.entries()[jj]).0 == k));
                            assert(iter_has_key(store.iter_view(nm), k) == iter_has_key(
                                coll_pre.iter_view(nm),
                                k,
                            ));
                        }
                    }
                },
                IterableNodeDiff::Update(changes) => {
                    let c = changes.len();
                    let mut j: usize = 0;
                    while j < c
                        invariant
                            store.store_inv(),
                            changes.wf(),
                            c == changes.entries().len(),
                            j <= c,
                            store.substates_view() == after_up.substates_view(),
                            forall|onm: NodeModule|
                                onm != nm ==> store.iter_view(onm) == coll_pre.iter_view(
                                    onm,
                                ),
                            forall|jj: int|
                                0 <= jj < j ==> match (#[trigger] changes.entries()[jj]).1 {
                                    IterableSubstateDiff::Insert(v) => iter_has_key(
                                        store.iter_view(nm),
                                        changes.entries()[jj].0,
                                    ) && iter_value_of(
                                        store.iter_view(nm),
                                        changes.entries()[jj].0,
                                    ) == v.abs(),
                                    IterableSubstateDiff::Remove => !iter_has_key(
                                        store.iter_view(nm),
                                        changes.entries()[jj].0,
                                    ),
                                },
                            forall|k: u64|
                                #![trigger iter_has_key(store.iter_view(nm), k)]
                                #![trigger iter_has_key(coll_pre.iter_view(nm), k)]
                                !(exists|jj: int|
                                    0 <= jj < j && (#[trigger] changes.entries()[jj]).0 == k)
                                    ==> (iter_has_key(store.iter_view(nm), k)
                                    == iter_has_key(coll_pre.iter_view(nm), k) && (
                                iter_has_key(coll_pre.iter_view(nm), k) ==> iter_value_of(
                                    store.iter_view(nm),
                                    k,
                                ) == iter_value_of(coll_pre.iter_view(nm), k))),
                        decreases c - j,
                    {
                        let entry = changes.entry_at(j);
                        match &entry.1 {
                            IterableSubstateDiff::Insert(v) => {
                                store.put_iterable_entry(
                                    nm.node_id,
                                    nm.module_id,
                                    entry.0,
                                    v.duplicate(),
                                );
                            },
                            IterableSubstateDiff::Remove => {
                                store.remove_iterable_entry(nm.node_id, nm.module_id, entry.0);
                            },
                        }
                        proof {
                            assert forall|jj: int|
                                0 <= jj < j + 1 implies match (
                            #[trigger] changes.entries()[jj]).1 {
                                IterableSubstateDiff::Insert(v) => iter_has_key(
                                    store.iter_view(nm),
                                    changes.entries()[jj].0,
                                ) && iter_value_of(store.iter_view(nm), changes.entries()[jj].0)
                                    == v.abs(),
                                IterableSubstateDiff::Remove => !iter_has_key(
                                    store.iter_view(nm),
                                    changes.entries()[jj].0,
                                ),
                            } by {
                                if jj < j {
                                    changes.lemma_key_index(jj);
                                    changes.lemma_key_index(j as int);
                                }
                            }
                        }
                        j = j + 1;
                    }
                    proof {
                        assert(coll_pre.iter_view(nm) == old(store).iter_view(nm));
                        assert forall|k: u64|
                            #[trigger] changes.has_key(k) implies match changes.value_of(k) {
                            IterableSubstateDiff::Insert(v) => iter_has_key(
                                store.iter_view(nm),
                                k,
                            ) && iter_value_of(store.iter_view(nm), k) == v.abs(),
                            IterableSubstateDiff::Remove => !iter_has_key(
                                store.iter_view(nm),
                                k,
                            ),
                        } by {
                            let jj = changes.key_index(k);
                            changes.lemma_key_index(jj);
                        }
                        assert forall|k: u64|
                            !changes.has_key(k) implies (#[trigger] iter_has_key(
                            store.iter_view(nm),
                            k,
                        ) == iter_has_key(old(store).iter_view(nm), k) && (iter_has_key(
                            old(store).iter_view(nm),
                            k,
                        ) ==> iter_value_of(store.iter_view(nm), k) == iter_value_of(
                            old(store).iter_view(nm),
                            k,
                        ))) by {
                            assert(!(exists|jj: int|
                                0 <= jj < changes.entries().len() && (
                                #[trigger] changes.entries()[jj]).0 == k));
                            assert(iter_has_key(store.iter_view(nm), k) == iter_has_key(
                                coll_pre.iter_view(nm),
                                k,
                            ));
                        }
                    }
                },
            }
            proof {
                assert forall|tt: int|
                    t + 1 <= tt < m implies store.iter_view(
                    (#[trigger] self.iterable_nodes_update.entries()[tt]).0,
                ) == old(store).iter_view(self.iterable_nodes_update.entries()[tt].0) by {
                    let onm = self.iterable_nodes_update.entries()[tt].0;
                    self.iterable_nodes_update.lemma_index_unique(tt);
                    assert(onm != nm);
                }
                assert forall|onm: NodeModule|
                    !self.iterable_nodes_update.contains_abs(onm) implies store.iter_view(onm)
                    == old(store).iter_view(onm) by {
                    assert(onm != nm);
                }
                assert(coll_pre.iter_view(nm) == old(store).iter_view(nm));
                assert forall|tt: int|
                    0 <= tt < t + 1 implies match (
                #[trigger] self.iterable_nodes_update.entries()[tt]).1 {
                    IterableNodeDiff::New(mm) => {
                        let onm = self.iterable_nodes_update.entries()[tt].0;
                        &&& (forall|k: u64|
                            #[trigger] mm.has_key(k) ==> iter_has_key(store.iter_view(onm), k)
                                && iter_value_of(store.iter_view(onm), k) == mm.value_of(
                                k,
                            ).abs())
                        &&& (forall|k: u64|
                            !mm.has_key(k) ==> #[trigger] iter_has_key(store.iter_view(onm), k)
                                == iter_has_key(old(store).iter_view(onm), k))
                        &&& (forall|k: u64|
                            !mm.has_key(k) && #[trigger] iter_has_key(
                                old(store).iter_view(onm),
                                k,
                            ) ==> iter_value_of(store.iter_view(onm), k) == iter_value_of(
                                old(store).iter_view(onm),
                                k,
                            ))
                    },
                    IterableNodeDiff::Update(uu) => {
                        let onm = self.iterable_nodes_update.entries()[tt].0;
                        &&& (forall|k: u64|
                            #[trigger] uu.has_key(k) ==> match uu.value_of(k) {
                                IterableSubstateDiff::Insert(v) => iter_has_key(
                                    store.iter_view(onm),
                                    k,
                                ) && iter_value_of(store.iter_view(onm), k) == v.abs(),
                                IterableSubstateDiff::Remove => !iter_has_key(
                                    store.iter_view(onm),
                                    k,
                                ),
                            })
                        &&& (forall|k: u64|
                            !uu.has_key(k) ==> #[trigger] iter_has_key(store.iter_view(onm), k)
                                == iter_has_key(old(store).iter_view(onm), k))
                        &&& (forall|k: u64|
                            !uu.has_key(k) && #[trigger] iter_has_key(
                                old(store).iter_view(onm),
                                k,
                            ) ==> iter_value_of(store.iter_view(onm), k) == iter_value_of(
                                old(store).iter_view(onm),
                                k,
                            ))
                    },
                } by {
                    let onm = self.iterable_nodes_update.entries()[tt].0;
                    if tt < t {
                        self.iterable_nodes_update.lemma_index_unique(tt);
                        self.iterable_nodes_update.lemma_index_unique(t as int);
                        assert(onm != nm);
                        assert(store.iter_view(onm) == coll_pre.iter_view(onm));
                    } else {
                        assert(onm == nm);
                        assert(self.iterable_nodes_update.entries()[tt].1 == *update);
                    }
                }
            }
            t = t + 1;
        }
        proof {
            assert forall|id: SubstateIdAbs|
                self.up_substates.contains_abs(id) implies final(store).substates_view(
            ).contains_key(id) && final(store).substates_view()[id] == self.up_substates.at_abs(
                id,
            ).abs() by {
                let j = self.up_substates.index_of_abs(id);
                self.up_substates.lemma_index_unique(j);
            }
        }
    }
}

} // verus!
