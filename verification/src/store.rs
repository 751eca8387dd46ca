//! The persistence interface: a readable/writable store of versioned
//! substates, plus an in-memory implementation used for tests and tooling.

use vstd::prelude::*;
use crate::addressing::{Digest, NodeModule, NodeModuleId, RENodeId, SubstateId, SubstateIdAbs,
    SubstateOffset, SubstateOffsetAbs};
use crate::collections::{OrderedMap, SortedU64Map};
use crate::substates::{PersistedSubstate, ScryptoValue, ScryptoValueAbs, SubstateAbs};

verus! {

/// The commit-time fingerprint of one stored substate: its key, its content
/// hash, and the version this transaction read.
#[derive(Debug, Clone, PartialEq, Eq)]
pub struct OutputId {
    pub substate_id: SubstateId,
    pub substate_hash: Digest,
    pub version: u32,
}

/// A versioned substate value, as the store hands it out and takes it back.
#[derive(Debug, Clone, PartialEq, Eq)]
pub struct OutputValue {
    pub substate: PersistedSubstate,
    pub version: u32,
}

/// The mathematical value of an [`OutputValue`].
pub struct OutputValueAbs {
    pub substate: SubstateAbs,
    pub version: u32,
}

impl OutputValue {
    /// The mathematical value of this versioned substate.
    pub open spec fn abs(&self) -> OutputValueAbs {
        OutputValueAbs { substate: self.substate.abs(), version: self.version }
    }
}

/// The mathematical key of the iterable entry `k` of collection `nm`.
pub open spec fn iter_entry_id(nm: NodeModule, k: u64) -> SubstateIdAbs {
    SubstateIdAbs {
        node_id: nm.node_id,
        module_id: nm.module_id,
        offset: SubstateOffsetAbs::IterableMap(k),
    }
}

/// The read half of the persistence interface.
pub trait ReadableSubstateStore: Sized {
    /// The store's own well-formedness.
    spec fn store_inv(&self) -> bool;

    /// The stored substates at plain (non-collection) keys.
    spec fn substates_view(&self) -> Map<SubstateIdAbs, OutputValueAbs>;

    /// The entries of the keyed collection `nm`, in increasing key order.
    spec fn iter_view(&self, nm: NodeModule) -> Seq<(u64, ScryptoValueAbs)>;

    /// Plain keys in the substate view never carry a collection offset, and
    /// collection entries are sorted strictly by key.
    proof fn lemma_views_wf(&self, nm: NodeModule)
        requires
            self.store_inv(),
        ensures
            forall|id: SubstateIdAbs|
                #[trigger] self.substates_view().contains_key(id) ==> !(id.offset
                    is IterableMap),
            iter_sorted(self.iter_view(nm)),
    ;

    /// Fetches the substate stored under the given key, if any.
    fn get_substate(&self, substate_id: &SubstateId) -> (r: Option<OutputValue>)
        requires
            self.store_inv(),
        ensures
            !(substate_id.abs().offset is IterableMap) ==> match r {
                Some(v) => self.substates_view().contains_key(substate_id.abs()) && v.abs()
                    == self.substates_view()[substate_id.abs()],
                None => !self.substates_view().contains_key(substate_id.abs()),
            },
            substate_id.abs().offset matches SubstateOffsetAbs::IterableMap(k) ==> {
                let nm = NodeModule {
                    node_id: substate_id.abs().node_id,
                    module_id: substate_id.abs().module_id,
                };
                match r {
                    Some(v) => {
                        &&& exists|i: int|
                            0 <= i < self.iter_view(nm).len() && (#[trigger] self.iter_view(
                                nm,
                            )[i]).0 == k && v.abs().substate == SubstateAbs::IterableEntry(
                                self.iter_view(nm)[i].1,
                            )
                        &&& v.abs().version == 0
                    },
                    None => forall|i: int|
                        0 <= i < self.iter_view(nm).len() ==> (#[trigger] self.iter_view(
                            nm,
                        )[i]).0 != k,
                }
            },
    ;

    /// Fetches the first `count` entries of the keyed collection `nm`, in
    /// increasing key order.
    fn first_in_iterable(&self, node_id: &RENodeId, module_id: NodeModuleId, count: usize) -> (r:
        Vec<(u64, ScryptoValue)>)
        requires
            self.store_inv(),
        ensures
            ({
                let nm = NodeModule { node_id: *node_id, module_id };
                let view = self.iter_view(nm);
                &&& r@.len() == if count as int <= view.len() {
                    count as int
                } else {
                    view.len() as int
                }
                &&& forall|i: int|
                    0 <= i < r@.len() ==> (#[trigger] r@[i]).0 == view[i].0 && r@[i].1.abs()
                        == view[i].1
            }),
    ;
}

/// The write half of the persistence interface.
pub trait WriteableSubstateStore: ReadableSubstateStore {
    /// Stores a versioned substate under a plain (non-collection) key.
    fn put_substate(&mut self, substate_id: SubstateId, substate: OutputValue)
        requires
            old(self).store_inv(),
            !(substate_id.abs().offset is IterableMap),
        ensures
            final(self).store_inv(),
            final(self).substates_view() == old(self).substates_view().insert(
                substate_id.abs(),
                substate.abs(),
            ),
            forall|nm: NodeModule| final(self).iter_view(nm) == old(self).iter_view(nm),
    ;

    /// Stores one entry of a keyed collection.
    fn put_iterable_entry(
        &mut self,
        node_id: RENodeId,
        module_id: NodeModuleId,
        key: u64,
        value: ScryptoValue,
    )
        requires
            old(self).store_inv(),
        ensures
            final(self).store_inv(),
            final(self).substates_view() == old(self).substates_view(),
            ({
                let nm = NodeModule { node_id, module_id };
                &&& iter_has_key(final(self).iter_view(nm), key)
                &&& iter_value_of(final(self).iter_view(nm), key) == value.abs()
                &&& forall|q: u64|
                    q != key ==> iter_has_key(final(self).iter_view(nm), q) == iter_has_key(
                        old(self).iter_view(nm),
                        q,
                    )
                &&& forall|q: u64|
                    q != key && iter_has_key(old(self).iter_view(nm), q) ==> iter_value_of(
                        final(self).iter_view(nm),
                        q,
                    ) == iter_value_of(old(self).iter_view(nm), q)
            }),
            forall|onm: NodeModule|
                onm != (NodeModule { node_id, module_id }) ==> final(self).iter_view(onm) == old(
                    self,
                ).iter_view(onm),
    ;

    /// Removes the substate stored under a plain (non-collection) key.
    fn remove_substate(&mut self, substate_id: &SubstateId)
        requires
            old(self).store_inv(),
            !(substate_id.abs().offset is IterableMap),
        ensures
            final(self).store_inv(),
            final(self).substates_view() == old(self).substates_view().remove(substate_id.abs()),
            forall|nm: NodeModule| final(self).iter_view(nm) == old(self).iter_view(nm),
    ;

    /// Removes one entry of a keyed collection.
    fn remove_iterable_entry(&mut self, node_id: RENodeId, module_id: NodeModuleId, key: u64)
        requires
            old(self).store_inv(),
        ensures
            final(self).store_inv(),
            final(self).substates_view() == old(self).substates_view(),
            ({
                let nm = NodeModule { node_id, module_id };
                &&& !iter_has_key(final(self).iter_view(nm), key)
                &&& forall|q: u64|
                    q != key ==> iter_has_key(final(self).iter_view(nm), q) == iter_has_key(
                        old(self).iter_view(nm),
                        q,
                    )
                &&& forall|q: u64|
                    q != key && iter_has_key(old(self).iter_view(nm), q) ==> iter_value_of(
                        final(self).iter_view(nm),
                        q,
                    ) == iter_value_of(old(self).iter_view(nm), q)
            }),
            forall|onm: NodeModule|
                onm != (NodeModule { node_id, module_id }) ==> final(self).iter_view(onm) == old(
                    self,
                ).iter_view(onm),
    ;
}

/// Whether the collection view `view` holds an entry with key `k`.
pub open spec fn iter_has_key(view: Seq<(u64, ScryptoValueAbs)>, k: u64) -> bool {
    exists|i: int| 0 <= i < view.len() && (#[trigger] view[i]).0 == k
}

/// The position of key `k` in the collection view `view` (meaningful only
/// when `iter_has_key(view, k)` holds).
pub open spec fn iter_key_index(view: Seq<(u64, ScryptoValueAbs)>, k: u64) -> int {
    choose|i: int| 0 <= i < view.len() && (#[trigger] view[i]).0 == k
}

/// The value the collection view `view` holds under key `k`.
pub open spec fn iter_value_of(view: Seq<(u64, ScryptoValueAbs)>, k: u64) -> ScryptoValueAbs {
    view[iter_key_index(view, k)].1
}

/// Keys of a collection view are strictly increasing.
pub open spec fn iter_sorted(view: Seq<(u64, ScryptoValueAbs)>) -> bool {
    forall|i: int, j: int|
        0 <= i < j < view.len() ==> (#[trigger] view[i]).0 < (#[trigger] view[j]).0
}

/// In a sorted collection view, an entry's position is determined by its key.
pub proof fn lemma_iter_at(view: Seq<(u64, ScryptoValueAbs)>, i: int)
    requires
        iter_sorted(view),
        0 <= i < view.len(),
    ensures
        iter_has_key(view, view[i].0),
        iter_key_index(view, view[i].0) == i,
        iter_value_of(view, view[i].0) == view[i].1,
{
    let k = view[i].0;
    assert(iter_has_key(view, k));
    let c = iter_key_index(view, k);
    assert(0 <= c < view.len() && view[c].0 == k);
    if c < i {
        assert(view[c].0 < view[i].0);
    } else if i < c {
        assert(view[i].0 < view[c].0);
    }
}

/// A store that is both readable and writable.
pub trait SubstateStore: ReadableSubstateStore + WriteableSubstateStore {
}

/// A substate store that keeps everything in host memory.
pub struct SerializedInMemorySubstateStore {
    /// The plain substates.
    pub substates: OrderedMap<SubstateId, OutputValue>,
    /// The keyed collections.
    pub iterables: OrderedMap<NodeModule, SortedU64Map<ScryptoValue>>,
}

impl SerializedInMemorySubstateStore {
    /// An empty store.
    pub fn new() -> (r: SerializedInMemorySubstateStore)
        ensures
            r.store_inv(),
            r.substates_view() == Map::<SubstateIdAbs, OutputValueAbs>::empty(),
            forall|nm: NodeModule| r.iter_view(nm) == Seq::<(u64, ScryptoValueAbs)>::empty(),
    {
        let r = SerializedInMemorySubstateStore {
            substates: OrderedMap::new(),
            iterables: OrderedMap::new(),
        };
        proof {
            assert(r.substates_view() =~= Map::<SubstateIdAbs, OutputValueAbs>::empty());
        }
        r
    }
}

impl ReadableSubstateStore for SerializedInMemorySubstateStore {
    open spec fn store_inv(&self) -> bool {
        &&& self.substates.wf()
        &&& self.iterables.wf()
        &&& forall|i: int|
            0 <= i < self.iterables.entries().len() ==> (
            #[trigger] self.iterables.entries()[i]).1.wf()
        &&& forall|i: int|
            0 <= i < self.substates.entries().len() ==> !((
            #[trigger] self.substates.entries()[i]).0.abs().offset is IterableMap)
    }

    open spec fn substates_view(&self) -> Map<SubstateIdAbs, OutputValueAbs> {
        Map::new(
            |id: SubstateIdAbs| self.substates.contains_abs(id),
            |id: SubstateIdAbs| self.substates.at_abs(id).abs(),
        )
    }

    open spec fn iter_view(&self, nm: NodeModule) -> Seq<(u64, ScryptoValueAbs)> {
        if self.iterables.contains_abs(nm) {
            self.iterables.at_abs(nm).entries().map_values(
                |p: (u64, ScryptoValue)| (p.0, p.1.abs()),
            )
        } else {
            Seq::empty()
        }
    }

    proof fn lemma_views_wf(&self, nm: NodeModule) {
        if self.iterables.contains_abs(nm) {
            let j = self.iterables.index_of_abs(nm);
            self.iterables.lemma_index_unique(j);
        }
    }

    fn get_substate(&self, substate_id: &SubstateId) -> (r: Option<OutputValue>) {
        let is_iter = match &substate_id.2 {
            SubstateOffset::IterableMap(_) => true,
            _ => false,
        };
        if is_iter {
            let key: u64 = match &substate_id.2 {
                SubstateOffset::IterableMap(k) => *k,
                _ => 0,
            };
            let nm = NodeModule { node_id: substate_id.0, module_id: substate_id.1 };
            proof {
                self.lemma_views_wf(nm);
            }
            match self.iterables.get_ref(&nm) {
                Some(coll) => {
                    proof {
                        let j = self.iterables.index_of_abs(nm);
                    }
                    match coll.get_ref(key) {
                        Some(v) => {
                            let out = OutputValue {
                                substate: PersistedSubstate::IterableEntry(v.duplicate()),
                                version: 0,
                            };
                            proof {
                                let i = coll.key_index(key);
                                assert(self.iter_view(nm)[i].0 == key);
                                assert(self.iter_view(nm)[i].1 == coll.entries()[i].1.abs());
                            }
                            Some(out)
                        },
                        None => {
                            proof {
                                assert forall|i: int|
                                    0 <= i < self.iter_view(nm).len() implies (
                                #[trigger] self.iter_view(nm)[i]).0 != key by {
                                    assert(coll.entries()[i].0 == self.iter_view(nm)[i].0);
                                }
                            }
                            None
                        },
                    }
                },
                None => None,
            }
        } else {
            match self.substates.get_ref(substate_id) {
                Some(v) => Some(OutputValue { substate: v.substate.duplicate(), version: v.version }),
                None => None,
            }
        }
    }

    fn first_in_iterable(&self, node_id: &RENodeId, module_id: NodeModuleId, count: usize) -> (r:
        Vec<(u64, ScryptoValue)>) {
        let nm = NodeModule { node_id: *node_id, module_id };
        let mut out: Vec<(u64, ScryptoValue)> = Vec::new();
        match self.iterables.get_ref(&nm) {
            Some(coll) => {
                let n = coll.len();
                let limit: usize = if count <= n {
                    count
                } else {
                    n
                };
                let mut i: usize = 0;
                while i < limit
                    invariant
                        coll.wf(),
                        self.iterables.contains_abs(nm),
                        coll == self.iterables.at_abs(nm),
                        limit <= coll.entries().len(),
                        i <= limit,
                        out@.len() == i as int,
                        forall|j: int|
                            0 <= j < i ==> (#[trigger] out@[j]).0 == coll.entries()[j].0
                                && out@[j].1.abs() == coll.entries()[j].1.abs(),
                    decreases limit - i,
                {
                    let entry = coll.entry_at(i);
                    out.push((entry.0, entry.1.duplicate()));
                    i = i + 1;
                }
                proof {
                    assert forall|j: int| 0 <= j < out@.len() implies (#[trigger] out@[j]).0
                        == self.iter_view(nm)[j].0 && out@[j].1.abs() == self.iter_view(nm)[j].1 by {
                        assert(self.iter_view(nm)[j].0 == coll.entries()[j].0);
                    }
                }
            },
            None => {},
        }
        out
    }
}

/// Connects a sorted collection to its mathematical view: membership and
/// values carry over one to one.
pub proof fn lemma_mapped_view(coll: SortedU64Map<ScryptoValue>, k: u64)
    ensures
        iter_has_key(mapped_view(coll), k) == coll.has_key(k),
        coll.wf() && coll.has_key(k) ==> iter_value_of(mapped_view(coll), k) == coll.value_of(
            k,
        ).abs(),
{
    let m = mapped_view(coll);
    assert(m.len() == coll.entries().len());
    assert forall|i: int| 0 <= i < m.len() implies (#[trigger] m[i]).0 == coll.entries()[i].0
        && m[i].1 == coll.entries()[i].1.abs() by {}
    if coll.has_key(k) {
        let i = coll.key_index(k);
        assert(m[i].0 == k);
        assert(iter_has_key(m, k));
        if coll.wf() {
            let j = choose|j: int| 0 <= j < m.len() && (#[trigger] m[j]).0 == k;
            if i != j {
                assert(coll.entries()[i].0 == coll.entries()[j].0);
                if i < j {
                    assert(coll.entries()[i].0 < coll.entries()[j].0);
                } else {
                    assert(coll.entries()[j].0 < coll.entries()[i].0);
                }
            }
            assert(iter_value_of(m, k) == coll.value_of(k).abs());
        }
    }
    if iter_has_key(m, k) {
        let j = choose|j: int| 0 <= j < m.len() && (#[trigger] m[j]).0 == k;
        assert(coll.entries()[j].0 == k);
        assert(coll.has_key(k));
    }
}

/// The mathematical view of one sorted collection.
pub open spec fn mapped_view(coll: SortedU64Map<ScryptoValue>) -> Seq<(u64, ScryptoValueAbs)> {
    coll.entries().map_values(|p: (u64, ScryptoValue)| (p.0, p.1.abs()))
}

impl WriteableSubstateStore for SerializedInMemorySubstateStore {
    fn put_substate(&mut self, substate_id: SubstateId, substate: OutputValue) {
        let ghost id = substate_id.abs();
        let ghost pre = *self;
        self.substates.insert_entry(substate_id, substate);
        proof {
            assert forall|i: int|
                0 <= i < self.substates.entries().len() implies !((
            #[trigger] self.substates.entries()[i]).0.abs().offset is IterableMap) by {
                if pre.substates.contains_abs(id) {
                    let j = pre.substates.index_of_abs(id);
                    if i == j {
                        assert(self.substates.entries()[i].0 == pre.substates.entries()[j].0);
                    } else {
                        assert(self.substates.entries()[i] == pre.substates.entries()[i]);
                    }
                } else {
                    if i < pre.substates.entries().len() {
                        assert(self.substates.entries()[i] == pre.substates.entries()[i]);
                    } else {
                        assert(self.substates.entries()[i].0.abs() == id);
                    }
                }
            }
            assert(self.substates_view() =~= pre.substates_view().insert(id, substate.abs()));
            assert forall|nm: NodeModule| self.iter_view(nm) == pre.iter_view(nm) by {}
        }
    }

    fn put_iterable_entry(
        &mut self,
        node_id: RENodeId,
        module_id: NodeModuleId,
        key: u64,
        value: ScryptoValue,
    ) {
        let nm = NodeModule { node_id, module_id };
        let ghost pre = *self;
        match self.iterables.index_of(&nm) {
            Some(i) => {
                proof {
                    pre.iterables.lemma_index_unique(i as int);
                }
                let coll = self.iterables.value_at_mut(i);
                coll.insert(key, value);
                proof {
                    OrderedMap::lemma_value_update(pre.iterables, self.iterables, i as int);
                    let coll0 = pre.iterables.at_abs(nm);
                    let coll1 = self.iterables.at_abs(nm);
                    assert(coll1 == self.iterables.entries()[i as int].1);
                    assert forall|j: int|
                        0 <= j < self.iterables.entries().len() implies (
                    #[trigger] self.iterables.entries()[j]).1.wf() by {
                        if j != i {
                            assert(self.iterables.entries()[j] == pre.iterables.entries()[j]);
                        }
                    }
                    lemma_mapped_view(coll1, key);
                    assert forall|q: u64|
                        q != key implies iter_has_key(self.iter_view(nm), q) == iter_has_key(
                        pre.iter_view(nm),
                        q,
                    ) by {
                        lemma_mapped_view(coll1, q);
                        lemma_mapped_view(coll0, q);
                    }
                    assert forall|q: u64|
                        q != key && iter_has_key(pre.iter_view(nm), q) implies iter_value_of(
                        self.iter_view(nm),
                        q,
                    ) == iter_value_of(pre.iter_view(nm), q) by {
                        lemma_mapped_view(coll1, q);
                        lemma_mapped_view(coll0, q);
                    }
                    assert forall|onm: NodeModule|
                        onm != nm implies self.iter_view(onm) == pre.iter_view(onm) by {
                        if pre.iterables.contains_abs(onm) {
                            assert(self.iterables.at_abs(onm) == pre.iterables.at_abs(onm));
                        }
                    }
                    assert(self.substates_view() =~= pre.substates_view());
                }
            },
            None => {
                let mut coll: SortedU64Map<ScryptoValue> = SortedU64Map::new();
                coll.insert(key, value);
                self.iterables.push_new(nm, coll);
                proof {
                    let n0 = pre.iterables.entries().len() as int;
                    let coll1 = self.iterables.at_abs(nm);
                    assert forall|j: int|
                        0 <= j < self.iterables.entries().len() implies (
                    #[trigger] self.iterables.entries()[j]).1.wf() by {
                        if j < n0 {
                            assert(self.iterables.entries()[j] == pre.iterables.entries()[j]);
                        } else {
                            assert(self.iterables.entries()[j].1 == coll1);
                        }
                    }
                    lemma_mapped_view(coll1, key);
                    assert forall|q: u64|
                        q != key implies iter_has_key(self.iter_view(nm), q) == iter_has_key(
                        pre.iter_view(nm),
                        q,
                    ) by {
                        lemma_mapped_view(coll1, q);
                    }
                    assert forall|onm: NodeModule|
                        onm != nm implies self.iter_view(onm) == pre.iter_view(onm) by {
                        if pre.iterables.contains_abs(onm) {
                            assert(self.iterables.at_abs(onm) == pre.iterables.at_abs(onm));
                        }
                    }
                    assert(self.substates_view() =~= pre.substates_view());
                }
            },
        }
    }

    fn remove_substate(&mut self, substate_id: &SubstateId) {
        let ghost pre = *self;
        let _ = self.substates.remove_entry(substate_id);
        proof {
            assert forall|i: int|
                0 <= i < self.substates.entries().len() implies !((
            #[trigger] self.substates.entries()[i]).0.abs().offset is IterableMap) by {
                if pre.substates.contains_abs(substate_id.abs()) {
                    let r = pre.substates.index_of_abs(substate_id.abs());
                    let oi: int = if i < r {
                        i
                    } else {
                        i + 1
                    };
                    assert(self.substates.entries()[i] == pre.substates.entries()[oi]);
                } else {
                    assert(self.substates.entries()[i] == pre.substates.entries()[i]);
                }
            }
            assert(self.substates_view() =~= pre.substates_view().remove(substate_id.abs()));
            assert forall|nm: NodeModule| self.iter_view(nm) == pre.iter_view(nm) by {}
        }
    }

    fn remove_iterable_entry(&mut self, node_id: RENodeId, module_id: NodeModuleId, key: u64) {
        let nm = NodeModule { node_id, module_id };
        let ghost pre = *self;
        match self.iterables.index_of(&nm) {
            Some(i) => {
                proof {
                    pre.iterables.lemma_index_unique(i as int);
                }
                let coll = self.iterables.value_at_mut(i);
                let _removed = coll.remove(key);
                proof {
                    OrderedMap::lemma_value_update(pre.iterables, self.iterables, i as int);
                    let coll0 = pre.iterables.at_abs(nm);
                    let coll1 = self.iterables.at_abs(nm);
                    assert(coll1 == self.iterables.entries()[i as int].1);
                    assert forall|j: int|
                        0 <= j < self.iterables.entries().len() implies (
                    #[trigger] self.iterables.entries()[j]).1.wf() by {
                        if j != i {
                            assert(self.iterables.entries()[j] == pre.iterables.entries()[j]);
                        }
                    }
                    lemma_mapped_view(coll1, key);
                    assert forall|q: u64|
                        q != key implies iter_has_key(self.iter_view(nm), q) == iter_has_key(
                        pre.iter_view(nm),
                        q,
                    ) by {
                        lemma_mapped_view(coll1, q);
                        lemma_mapped_view(coll0, q);
                    }
                    assert forall|q: u64|
                        q != key && iter_has_key(pre.iter_view(nm), q) implies iter_value_of(
                        self.iter_view(nm),
                        q,
                    ) == iter_value_of(pre.iter_view(nm), q) by {
                        lemma_mapped_view(coll1, q);
                        lemma_mapped_view(coll0, q);
                    }
                    assert forall|onm: NodeModule|
                        onm != nm implies self.iter_view(onm) == pre.iter_view(onm) by {
                        if pre.iterables.contains_abs(onm) {
                            assert(self.iterables.at_abs(onm) == pre.iterables.at_abs(onm));
                        }
                    }
                    assert(self.substates_view() =~= pre.substates_view());
                }
            },
            None => {
                proof {
                    assert(!iter_has_key(self.iter_view(nm), key));
                }
            },
        }
    }
}

impl SubstateStore for SerializedInMemorySubstateStore {

}

} // verus!
