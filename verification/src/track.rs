//! The lock manager ("track"): the transaction-scoped overlay over the
//! substate store. It loads substates on first touch, enforces the
//! single-writer / multi-reader lock discipline per substate, and records
//! the dirty metadata finalization needs.

use vstd::prelude::*;
use crate::addressing::{NodeModule, NodeModuleId, RENodeId, SubstateId, SubstateIdAbs,
    SubstateOffset, SubstateOffsetAbs, KeyValueStoreOffset};
use crate::collections::{OrderedMap, SortedU64Map};
use crate::errors::{ApplicationError, CanBeAbortion, RejectionError, RuntimeError,
    TransactionProcessorError};
use crate::receipt::{AbortReason, InstructionOutput};
use crate::fees::{FeeReserveError, FeeSummary};
use crate::store::{iter_has_key, iter_key_index, iter_sorted, iter_value_of, lemma_iter_at,
    OutputValueAbs, ReadableSubstateStore};
use crate::substates::{all_global, spec_references, PersistedSubstate, RuntimeSubstate,
    ScryptoValue, ScryptoValueAbs, SubstateAbs};

verus! {

/// How many per-key edits one keyed-collection overlay may record; scans
/// over-fetch by the number of edits, so this bound keeps that arithmetic
/// inside machine integers.
pub const MAX_COLLECTION_EDITS: usize = 0x10000000;

/// The flags of one lock request.
#[derive(Debug, Clone, Copy, PartialEq, Eq, Structural, Hash)]
pub struct LockFlags {
    /// Request the exclusive write lock.
    pub mutable: bool,
    /// Insist on seeing the pristine store value.
    pub unmodified_base: bool,
    /// Force the written value into the diff even when the transaction
    /// fails.
    pub force_write: bool,
}

impl LockFlags {
    /// A plain shared read request.
    pub fn read_only() -> (r: LockFlags)
        ensures
            r == (LockFlags { mutable: false, unmodified_base: false, force_write: false }),
    {
        LockFlags { mutable: false, unmodified_base: false, force_write: false }
    }

    /// An exclusive write request.
    pub fn mutable() -> (r: LockFlags)
        ensures
            r == (LockFlags { mutable: true, unmodified_base: false, force_write: false }),
    {
        LockFlags { mutable: true, unmodified_base: false, force_write: false }
    }
}

/// The lock state of one loaded substate: a count of shared readers, or the
/// single exclusive writer.
#[derive(Debug, Clone, Copy, PartialEq, Eq, Structural, Hash)]
pub enum LockState {
    Read(usize),
    Write,
}

impl LockState {
    /// The unlocked state: zero readers.
    pub fn no_lock() -> (r: LockState)
        ensures
            r == LockState::Read(0usize),
    {
        LockState::Read(0)
    }
}

/// How a substate loaded from the store has been treated so far.
#[derive(Debug, Clone, PartialEq, Eq)]
pub enum ExistingMetaState {
    /// Loaded and not yet updated.
    Loaded,
    /// Updated; the snapshot, when present, must reach the diff even when
    /// the transaction fails.
    Updated(Option<PersistedSubstate>),
}

/// Where a loaded substate came from and whether it was touched.
#[derive(Debug, Clone, PartialEq, Eq)]
pub enum SubstateMetaState {
    /// Created by this transaction; the store has no base for it.
    New,
    /// Loaded from the store at the given version.
    Existing { old_version: u32, state: ExistingMetaState },
}

/// One live overlay row: the substate, its lock state, and its metadata.
#[derive(Debug, Clone, PartialEq, Eq)]
pub struct LoadedSubstate {
    pub substate: RuntimeSubstate,
    pub lock_state: LockState,
    pub metastate: SubstateMetaState,
}

/// The mathematical value of an [`ExistingMetaState`].
pub enum ExistingMetaAbs {
    Loaded,
    Updated(Option<SubstateAbs>),
}

/// The mathematical value of a [`SubstateMetaState`].
pub enum MetaAbs {
    New,
    Existing { old_version: u32, state: ExistingMetaAbs },
}

/// The mathematical value of a [`LoadedSubstate`].
pub struct RowAbs {
    pub substate: SubstateAbs,
    pub lock_state: LockState,
    pub metastate: MetaAbs,
}

impl SubstateMetaState {
    /// The mathematical value of this metadata.
    pub open spec fn abs(&self) -> MetaAbs {
        match *self {
            SubstateMetaState::New => MetaAbs::New,
            SubstateMetaState::Existing { old_version, state: ExistingMetaState::Loaded } =>
                MetaAbs::Existing { old_version, state: ExistingMetaAbs::Loaded },
            SubstateMetaState::Existing {
                old_version,
                state: ExistingMetaState::Updated(None),
            } => MetaAbs::Existing { old_version, state: ExistingMetaAbs::Updated(None) },
            SubstateMetaState::Existing {
                old_version,
                state: ExistingMetaState::Updated(Some(ref s)),
            } => MetaAbs::Existing {
                old_version,
                state: ExistingMetaAbs::Updated(Some(s.abs())),
            },
        }
    }
}

impl LoadedSubstate {
    /// The mathematical value of this row.
    pub open spec fn abs(&self) -> RowAbs {
        RowAbs {
            substate: self.substate.abs(),
            lock_state: self.lock_state,
            metastate: self.metastate.abs(),
        }
    }
}

/// One keyed collection's overlay: freshly created with its entries, or a
/// set of per-key edits over the stored collection.
pub enum IterableNodeUpdate {
    New(SortedU64Map<ScryptoValue>),
    Update(SortedU64Map<IterableSubstateUpdate>),
}

/// One key's recorded edit in a collection overlay.
#[derive(Debug, Clone, PartialEq, Eq)]
pub enum IterableSubstateUpdate {
    Insert(ScryptoValue),
    Remove,
}

/// What of a keyed collection this transaction has read.
#[derive(Debug, Clone, Copy, PartialEq, Eq, Structural, Hash)]
pub enum IterableNodeRead {
    FirstRange(u32),
    Substate(u64),
}

/// A lock-manager error, surfaced synchronously to the caller.
#[derive(Debug, Clone, PartialEq, Eq)]
pub enum TrackError {
    NotFound(SubstateId),
    SubstateLocked(SubstateId, LockState),
    LockUnmodifiedBaseOnNewSubstate(SubstateId),
    LockUnmodifiedBaseOnOnUpdatedSubstate(SubstateId),
    InternalRefNotAllowed,
}

/// A failure before execution even started: the fee reserve refused the
/// transaction up front.
pub struct PreExecutionError {
    pub fee_summary: FeeSummary,
    pub error: FeeReserveError,
}

/// Transaction-wide state: the overlay of loaded substates and the keyed
/// collection overlays, over one read-only store.
pub struct Track<'s, S: ReadableSubstateStore> {
    pub substate_store: &'s S,
    pub loaded_substates: OrderedMap<SubstateId, LoadedSubstate>,
    pub iterable_node_reads: OrderedMap<NodeModule, IterableNodeRead>,
    pub iterable_node_updates: OrderedMap<NodeModule, IterableNodeUpdate>,
}


/// The collection key of one scan result entry.
pub open spec fn out_key(e: (SubstateId, RuntimeSubstate)) -> u64 {
    e.0.abs().offset->IterableMap_0
}

/// Whether key `k` is live in the merge of the edit overlay `u` over the
/// stored collection `view`: an overlay insert wins, an overlay removal
/// hides the stored entry, an untouched key falls through to the store.
pub open spec fn edits_live(
    u: SortedU64Map<IterableSubstateUpdate>,
    view: Seq<(u64, ScryptoValueAbs)>,
    k: u64,
) -> bool {
    if u.has_key(k) {
        u.value_of(k) is Insert
    } else {
        iter_has_key(view, k)
    }
}

/// The live value of key `k` in the merge of the edit overlay `u` over the
/// stored collection `view`.
pub open spec fn edits_value(
    u: SortedU64Map<IterableSubstateUpdate>,
    view: Seq<(u64, ScryptoValueAbs)>,
    k: u64,
) -> ScryptoValueAbs {
    if u.has_key(k) {
        u.value_of(k)->Insert_0.abs()
    } else {
        iter_value_of(view, k)
    }
}

/// What one lock request does to the row it addresses: the updated row, or
/// the error, exactly as the lock-compatibility rule dictates. A shared
/// request against a reader count already at `usize::MAX` is refused rather
/// than allowed to wrap, so the count never overflows.
pub open spec fn spec_acquire(row0: RowAbs, substate_id: SubstateId, flags: LockFlags) -> Result<
    RowAbs,
    TrackError,
> {
    if flags.unmodified_base && row0.metastate is New {
        Err(TrackError::LockUnmodifiedBaseOnNewSubstate(substate_id))
    } else if flags.unmodified_base && (row0.metastate matches MetaAbs::Existing {
        state: ExistingMetaAbs::Updated(_),
        ..
    }) {
        Err(TrackError::LockUnmodifiedBaseOnOnUpdatedSubstate(substate_id))
    } else {
        match row0.lock_state {
            LockState::Read(n) => if flags.mutable {
                if n != 0 {
                    Err(TrackError::SubstateLocked(substate_id, LockState::Read(n)))
                } else {
                    Ok(RowAbs { lock_state: LockState::Write, ..row0 })
                }
            } else {
                if n == usize::MAX {
                    Err(TrackError::SubstateLocked(substate_id, LockState::Read(n)))
                } else {
                    Ok(RowAbs { lock_state: LockState::Read((n + 1) as usize), ..row0 })
                }
            },
            LockState::Write => Err(TrackError::SubstateLocked(substate_id, LockState::Write)),
        }
    }
}


/// What one lock release does to the row it addresses: a reader decrements
/// the count; the writer is checked for internal-reference leaks and, on
/// success, marks the row updated — with a forced snapshot when demanded.
pub open spec fn spec_release(row0: RowAbs, force_write: bool) -> Result<RowAbs, TrackError> {
    match row0.lock_state {
        LockState::Read(n) => Ok(RowAbs { lock_state: LockState::Read((n - 1) as usize), ..row0 }),
        LockState::Write => if !all_global(spec_references(row0.substate)) {
            Err(TrackError::InternalRefNotAllowed)
        } else {
            Ok(
                RowAbs {
                    lock_state: LockState::Read(0usize),
                    metastate: if force_write {
                        match row0.metastate {
                            MetaAbs::Existing { old_version, .. } => MetaAbs::Existing {
                                old_version,
                                state: ExistingMetaAbs::Updated(Some(row0.substate)),
                            },
                            MetaAbs::New => MetaAbs::New,
                        }
                    } else {
                        match row0.metastate {
                            MetaAbs::New => MetaAbs::New,
                            MetaAbs::Existing {
                                old_version,
                                state: ExistingMetaAbs::Loaded,
                            } => MetaAbs::Existing {
                                old_version,
                                state: ExistingMetaAbs::Updated(None),
                            },
                            MetaAbs::Existing {
                                old_version,
                                state: ExistingMetaAbs::Updated(s),
                            } => MetaAbs::Existing {
                                old_version,
                                state: ExistingMetaAbs::Updated(s),
                            },
                        }
                    },
                    ..row0
                },
            )
        },
    }
}

impl<'s, S: ReadableSubstateStore> Track<'s, S> {
    /// The overlay maps are well-formed and the store is, too.
    pub open spec fn inv(&self) -> bool {
        &&& self.loaded_substates.wf()
        &&& self.iterable_node_reads.wf()
        &&& self.iterable_node_updates.wf()
        &&& forall|i: int|
            0 <= i < self.iterable_node_updates.entries().len() ==> match (
            #[trigger] self.iterable_node_updates.entries()[i]).1 {
                IterableNodeUpdate::New(m) => m.wf(),
                IterableNodeUpdate::Update(m) => m.wf() && m.entries().len()
                    < MAX_COLLECTION_EDITS,
            }
        &&& self.substate_store.store_inv()
    }

    /// Whether a row is loaded for the given key.
    pub open spec fn rows_contains(&self, id: SubstateIdAbs) -> bool {
        self.loaded_substates.contains_abs(id)
    }

    /// The loaded row under the given key.
    pub open spec fn row(&self, id: SubstateIdAbs) -> RowAbs {
        self.loaded_substates.at_abs(id).abs()
    }

    /// What the store holds under the given plain key.
    pub open spec fn stored(&self, id: SubstateIdAbs) -> Option<OutputValueAbs> {
        if self.substate_store.substates_view().contains_key(id) {
            Some(self.substate_store.substates_view()[id])
        } else {
            None
        }
    }

    /// The row a first touch of `id` puts into the overlay, given what the
    /// store answered.
    pub open spec fn fresh_row(v: OutputValueAbs) -> RowAbs {
        RowAbs {
            substate: v.substate,
            lock_state: LockState::Read(0usize),
            metastate: MetaAbs::Existing {
                old_version: v.version,
                state: ExistingMetaAbs::Loaded,
            },
        }
    }

    /// The two parties agree on everything but the row under `id`.
    pub open spec fn rows_match_except(&self, other: &Self, id: SubstateIdAbs) -> bool {
        &&& forall|q: SubstateIdAbs|
            q != id ==> #[trigger] other.rows_contains(q) == self.rows_contains(q)
        &&& forall|q: SubstateIdAbs|
            q != id && self.rows_contains(q) ==> #[trigger] other.row(q) == self.row(q)
    }

    /// Everything but the loaded rows is untouched.
    pub open spec fn non_row_state_unchanged(&self, other: &Self) -> bool {
        &&& other.substate_store == self.substate_store
        &&& other.iterable_node_reads == self.iterable_node_reads
        &&& other.iterable_node_updates == self.iterable_node_updates
    }

    /// A fresh overlay over the given store.
    pub fn new(substate_store: &'s S) -> (r: Track<'s, S>)
        requires
            substate_store.store_inv(),
        ensures
            r.inv(),
            r.substate_store == substate_store,
            r.loaded_substates.entries() == Seq::<(SubstateId, LoadedSubstate)>::empty(),
            r.iterable_node_reads.entries() == Seq::<(NodeModule, IterableNodeRead)>::empty(),
            r.iterable_node_updates.entries() == Seq::<(NodeModule, IterableNodeUpdate)>::empty(),
    {
        Track {
            substate_store,
            loaded_substates: OrderedMap::new(),
            iterable_node_reads: OrderedMap::new(),
            iterable_node_updates: OrderedMap::new(),
        }
    }

    /// Acquires a lock on one substate, loading it from the store on first
    /// touch. Shared read requests stack; an exclusive request succeeds only
    /// with no reader and no writer present; `UNMODIFIED_BASE` insists the
    /// row still shows the pristine store value.
    pub fn acquire_lock(&mut self, substate_id: SubstateId, flags: LockFlags) -> (r: Result<
        (),
        TrackError,
    >)
        requires
            old(self).inv(),
            !(substate_id.abs().offset is IterableMap),
        ensures
            final(self).inv(),
            old(self).non_row_state_unchanged(final(self)),
            ({
                let id = substate_id.abs();
                let row0 = if old(self).rows_contains(id) {
                    Some(old(self).row(id))
                } else {
                    match old(self).stored(id) {
                        Some(v) => Some(Self::fresh_row(v)),
                        None => None,
                    }
                };
                match row0 {
                    None => r == Err::<(), TrackError>(TrackError::NotFound(substate_id))
                        && final(self).loaded_substates == old(self).loaded_substates,
                    Some(row0) => {
                        &&& old(self).rows_match_except(final(self), id)
                        &&& final(self).rows_contains(id)
                        &&& match spec_acquire(row0, substate_id, flags) {
                            Ok(row1) => r is Ok && final(self).row(id) == row1,
                            Err(e) => r == Err::<(), TrackError>(e) && final(self).row(id) == row0,
                        }
                    },
                }
            }),
    {
        let ghost id = substate_id.abs();
        let ghost pre = *self;
        let idx: usize;
        match self.loaded_substates.index_of(&substate_id) {
            Some(i) => {
                idx = i;
            },
            None => {
                match self.substate_store.get_substate(&substate_id) {
                    Some(output) => {
                        let version = output.version;
                        let row = LoadedSubstate {
                            substate: output.substate.to_runtime(),
                            lock_state: LockState::no_lock(),
                            metastate: SubstateMetaState::Existing {
                                old_version: version,
                                state: ExistingMetaState::Loaded,
                            },
                        };
                        let key = substate_id.duplicate();
                        idx = self.loaded_substates.len();
                        self.loaded_substates.push_new(key, row);
                    },
                    None => {
                        return Err(TrackError::NotFound(substate_id));
                    },
                }
            },
        }
        let ghost row0 = self.loaded_substates.entries()[idx as int].1.abs();
        proof {
            self.loaded_substates.lemma_index_unique(idx as int);
            assert(self.rows_contains(id));
            assert(self.row(id) == row0);
        }
        let row_ref = self.loaded_substates.value_at(idx);
        if flags.unmodified_base {
            let is_new = match &row_ref.metastate {
                SubstateMetaState::New => true,
                _ => false,
            };
            if is_new {
                return Err(TrackError::LockUnmodifiedBaseOnNewSubstate(substate_id));
            }
            let is_updated = match &row_ref.metastate {
                SubstateMetaState::Existing { state: ExistingMetaState::Updated(_), .. } => true,
                _ => false,
            };
            if is_updated {
                return Err(TrackError::LockUnmodifiedBaseOnOnUpdatedSubstate(substate_id));
            }
        }
        let lock_state = row_ref.lock_state;
        match lock_state {
            LockState::Read(n) => {
                if flags.mutable {
                    if n != 0 {
                        return Err(TrackError::SubstateLocked(substate_id, LockState::Read(n)));
                    }
                    let ghost before = self.loaded_substates;
                    let row_mut = self.loaded_substates.value_at_mut(idx);
                    row_mut.lock_state = LockState::Write;
                    proof {
                        OrderedMap::lemma_value_update(
                            before,
                            self.loaded_substates,
                            idx as int,
                        );
                    }
                    Ok(())
                } else {
                    if n == usize::MAX {
                        return Err(TrackError::SubstateLocked(substate_id, LockState::Read(n)));
                    }
                    let ghost before = self.loaded_substates;
                    let row_mut = self.loaded_substates.value_at_mut(idx);
                    row_mut.lock_state = LockState::Read(n + 1);
                    proof {
                        OrderedMap::lemma_value_update(
                            before,
                            self.loaded_substates,
                            idx as int,
                        );
                    }
                    Ok(())
                }
            },
            LockState::Write => Err(TrackError::SubstateLocked(substate_id, LockState::Write)),
        }
    }

    /// Releases a lock: a reader decrements the count; the writer is checked
    /// for internal-reference leaks and, on success, marks the row updated —
    /// with a forced snapshot when `force_write` demands it.
    pub fn release_lock(&mut self, substate_id: SubstateId, force_write: bool) -> (r: Result<
        (),
        TrackError,
    >)
        requires
            old(self).inv(),
            old(self).rows_contains(substate_id.abs()),
            old(self).row(substate_id.abs()).lock_state matches LockState::Read(n) ==> n >= 1,
            force_write ==> old(self).row(substate_id.abs()).metastate is Existing,
            force_write ==> crate::substates::persistable(old(self).row(substate_id.abs()).substate),
        ensures
            final(self).inv(),
            old(self).non_row_state_unchanged(final(self)),
            old(self).rows_match_except(final(self), substate_id.abs()),
            final(self).rows_contains(substate_id.abs()),
            ({
                let id = substate_id.abs();
                let row0 = old(self).row(id);
                match spec_release(row0, force_write) {
                    Ok(row1) => r is Ok && final(self).row(id) == row1,
                    Err(e) => r == Err::<(), TrackError>(e) && final(self).row(id) == row0,
                }
            }),
    {
        let ghost id = substate_id.abs();
        let idx = match self.loaded_substates.index_of(&substate_id) {
            Some(i) => i,
            None => {
                proof {
                    assert(false);
                }
                0
            },
        };
        proof {
            self.loaded_substates.lemma_index_unique(idx as int);
        }
        let row_ref = self.loaded_substates.value_at(idx);
        match row_ref.lock_state {
            LockState::Read(n) => {
                let ghost before = self.loaded_substates;
                let row_mut = self.loaded_substates.value_at_mut(idx);
                row_mut.lock_state = LockState::Read(n - 1);
                proof {
                    OrderedMap::lemma_value_update(before, self.loaded_substates, idx as int);
                }
                Ok(())
            },
            LockState::Write => {
                if !row_ref.substate.has_only_global_references() {
                    return Err(TrackError::InternalRefNotAllowed);
                }
                if force_write {
                    let snapshot = row_ref.substate.clone_to_persisted();
                    let ghost before = self.loaded_substates;
                    let row_mut = self.loaded_substates.value_at_mut(idx);
                    row_mut.lock_state = LockState::no_lock();
                    let old_version: u32 = match &row_mut.metastate {
                        SubstateMetaState::Existing { old_version, .. } => *old_version,
                        SubstateMetaState::New => 0,
                    };
                    row_mut.metastate = SubstateMetaState::Existing {
                        old_version,
                        state: ExistingMetaState::Updated(Some(snapshot)),
                    };
                    proof {
                        OrderedMap::lemma_value_update(before, self.loaded_substates, idx as int);
                    }
                    Ok(())
                } else {
                    let ghost before = self.loaded_substates;
                    let row_mut = self.loaded_substates.value_at_mut(idx);
                    row_mut.lock_state = LockState::no_lock();
                    let needs_update = match &row_mut.metastate {
                        SubstateMetaState::Existing { state: ExistingMetaState::Loaded, .. } =>
                            true,
                        _ => false,
                    };
                    if needs_update {
                        let old_version: u32 = match &row_mut.metastate {
                            SubstateMetaState::Existing { old_version, .. } => *old_version,
                            SubstateMetaState::New => 0,
                        };
                        row_mut.metastate = SubstateMetaState::Existing {
                            old_version,
                            state: ExistingMetaState::Updated(None),
                        };
                    }
                    proof {
                        OrderedMap::lemma_value_update(before, self.loaded_substates, idx as int);
                    }
                    Ok(())
                }
            },
        }
    }

    /// Registers a brand-new substate; the same reference-cleanliness check
    /// as a write release applies. Callers must not register a key twice.
    pub fn insert_substate(&mut self, substate_id: SubstateId, substate: RuntimeSubstate) -> (r:
        Result<(), TrackError>)
        requires
            old(self).inv(),
            !old(self).rows_contains(substate_id.abs()),
        ensures
            final(self).inv(),
            old(self).non_row_state_unchanged(final(self)),
            old(self).rows_match_except(final(self), substate_id.abs()),
            ({
                let id = substate_id.abs();
                if !all_global(spec_references(substate.abs())) {
                    &&& r == Err::<(), TrackError>(TrackError::InternalRefNotAllowed)
                    &&& !final(self).rows_contains(id)
                } else {
                    &&& r is Ok
                    &&& final(self).rows_contains(id)
                    &&& final(self).row(id) == (RowAbs {
                        substate: substate.abs(),
                        lock_state: LockState::Read(0usize),
                        metastate: MetaAbs::New,
                    })
                }
            }),
    {
        if !substate.has_only_global_references() {
            return Err(TrackError::InternalRefNotAllowed);
        }
        self.loaded_substates.push_new(
            substate_id,
            LoadedSubstate {
                substate,
                lock_state: LockState::no_lock(),
                metastate: SubstateMetaState::New,
            },
        );
        Ok(())
    }

    /// A borrow of a loaded substate's content. A key-value entry is loaded
    /// (or virtualized as an absent entry) on first touch; any other key must
    /// have been locked before.
    pub fn get_substate(
        &mut self,
        node_id: &RENodeId,
        module_id: NodeModuleId,
        offset: &SubstateOffset,
    ) -> (r: &RuntimeSubstate)
        requires
            old(self).inv(),
            !(offset.abs() matches SubstateOffsetAbs::KeyValueStoreEntry(_)) ==> old(
                self,
            ).rows_contains(
                SubstateIdAbs {
                    node_id: *node_id,
                    module_id,
                    offset: offset.abs(),
                },
            ),
            !(offset.abs() is IterableMap),
        ensures
            final(self).inv(),
            old(self).non_row_state_unchanged(final(self)),
            ({
                let id = SubstateIdAbs { node_id: *node_id, module_id, offset: offset.abs() };
                &&& old(self).rows_match_except(final(self), id)
                &&& final(self).rows_contains(id)
                &&& r.abs() == final(self).row(id).substate
                &&& (old(self).rows_contains(id) ==> final(self).row(id) == old(self).row(id))
                &&& (!old(self).rows_contains(id) ==> final(self).row(id) == (match old(
                    self,
                ).stored(id) {
                    Some(v) => Self::fresh_row(v),
                    None => RowAbs {
                        substate: SubstateAbs::KeyValueStoreEntry(None),
                        lock_state: LockState::Read(0usize),
                        metastate: MetaAbs::Existing {
                            old_version: 0u32,
                            state: ExistingMetaAbs::Loaded,
                        },
                    },
                }))
            }),
    {
        let substate_id = SubstateId(*node_id, module_id, offset.duplicate());
        let ghost id = substate_id.abs();
        let idx: usize;
        match self.loaded_substates.index_of(&substate_id) {
            Some(i) => {
                idx = i;
            },
            None => {
                let row = match self.substate_store.get_substate(&substate_id) {
                    Some(output) => LoadedSubstate {
                        substate: output.substate.to_runtime(),
                        lock_state: LockState::no_lock(),
                        metastate: SubstateMetaState::Existing {
                            old_version: output.version,
                            state: ExistingMetaState::Loaded,
                        },
                    },
                    None => LoadedSubstate {
                        substate: RuntimeSubstate::KeyValueStoreEntry(None),
                        lock_state: LockState::no_lock(),
                        metastate: SubstateMetaState::Existing {
                            old_version: 0,
                            state: ExistingMetaState::Loaded,
                        },
                    },
                };
                idx = self.loaded_substates.len();
                self.loaded_substates.push_new(substate_id, row);
            },
        }
        proof {
            self.loaded_substates.lemma_index_unique(idx as int);
        }
        let row_ref = self.loaded_substates.value_at(idx);
        &row_ref.substate
    }

    /// Replaces the content of a loaded substate, keeping its lock state and
    /// its metadata; callers must have loaded the row first.
    pub fn set_substate(
        &mut self,
        node_id: &RENodeId,
        module_id: NodeModuleId,
        offset: &SubstateOffset,
        substate: RuntimeSubstate,
    )
        requires
            old(self).inv(),
            old(self).rows_contains(
                SubstateIdAbs { node_id: *node_id, module_id, offset: offset.abs() },
            ),
        ensures
            final(self).inv(),
            old(self).non_row_state_unchanged(final(self)),
            ({
                let id = SubstateIdAbs { node_id: *node_id, module_id, offset: offset.abs() };
                &&& old(self).rows_match_except(final(self), id)
                &&& final(self).rows_contains(id)
                &&& final(self).row(id) == (RowAbs {
                    substate: substate.abs(),
                    ..old(self).row(id)
                })
            }),
    {
        let substate_id = SubstateId(*node_id, module_id, offset.duplicate());
        let ghost id = substate_id.abs();
        let idx = match self.loaded_substates.index_of(&substate_id) {
            Some(i) => i,
            None => {
                proof {
                    assert(false);
                }
                0
            },
        };
        proof {
            self.loaded_substates.lemma_index_unique(idx as int);
        }
        let ghost before = self.loaded_substates;
        let row_mut = self.loaded_substates.value_at_mut(idx);
        row_mut.substate = substate;
        proof {
            OrderedMap::lemma_value_update(before, self.loaded_substates, idx as int);
        }
    }

    /// The overlay of one keyed collection, if it was touched.
    pub open spec fn overlay_contains(&self, nm: NodeModule) -> bool {
        self.iterable_node_updates.contains_abs(nm)
    }

    /// The overlay of one keyed collection.
    pub open spec fn overlay(&self, nm: NodeModule) -> IterableNodeUpdate {
        self.iterable_node_updates.at_abs(nm)
    }

    /// The two parties agree on every collection overlay but `nm`.
    pub open spec fn overlays_match_except(&self, other: &Self, nm: NodeModule) -> bool {
        &&& forall|q: NodeModule|
            q != nm ==> #[trigger] other.overlay_contains(q) == self.overlay_contains(q)
        &&& forall|q: NodeModule|
            q != nm && self.overlay_contains(q) ==> #[trigger] other.overlay(q) == self.overlay(q)
    }

    /// Registers a freshly created keyed collection: its overlay starts as an
    /// empty new collection, with no store backing.
    pub fn insert_iterable(&mut self, node_id: &RENodeId, module_id: &NodeModuleId)
        requires
            old(self).inv(),
        ensures
            final(self).inv(),
            final(self).substate_store == old(self).substate_store,
            final(self).loaded_substates == old(self).loaded_substates,
            final(self).iterable_node_reads == old(self).iterable_node_reads,
            ({
                let nm = NodeModule { node_id: *node_id, module_id: *module_id };
                &&& old(self).overlays_match_except(final(self), nm)
                &&& final(self).overlay_contains(nm)
                &&& final(self).overlay(nm) matches IterableNodeUpdate::New(m) && m.entries()
                    == Seq::<(u64, ScryptoValue)>::empty()
            }),
    {
        let nm = NodeModule { node_id: *node_id, module_id: *module_id };
        let ghost pre = *self;
        self.iterable_node_updates.insert_entry(nm, IterableNodeUpdate::New(SortedU64Map::new()));
        proof {
            assert forall|i: int|
                0 <= i < self.iterable_node_updates.entries().len() implies match (
            #[trigger] self.iterable_node_updates.entries()[i]).1 {
                IterableNodeUpdate::New(m) => m.wf(),
                IterableNodeUpdate::Update(m) => m.wf() && m.entries().len()
                    < MAX_COLLECTION_EDITS,
            } by {
                if pre.iterable_node_updates.contains_abs(nm) {
                    let j = pre.iterable_node_updates.index_of_abs(nm);
                    if i != j {
                        assert(self.iterable_node_updates.entries()[i]
                            == pre.iterable_node_updates.entries()[i]);
                    }
                } else {
                    if i < pre.iterable_node_updates.entries().len() {
                        assert(self.iterable_node_updates.entries()[i]
                            == pre.iterable_node_updates.entries()[i]);
                    }
                }
            }
        }
    }

    /// Records an insert into a keyed collection: straight into the map of a
    /// freshly created collection, else as an `Insert` edit shadowing the
    /// store.
    pub fn insert_into_iterable(
        &mut self,
        node_id: &RENodeId,
        module_id: &NodeModuleId,
        key: u64,
        value: ScryptoValue,
    )
        requires
            old(self).inv(),
            ({
                let nm = NodeModule { node_id: *node_id, module_id: *module_id };
                old(self).overlay_contains(nm) ==> match old(self).overlay(nm) {
                    IterableNodeUpdate::Update(u) => u.entries().len() + 1 < MAX_COLLECTION_EDITS,
                    IterableNodeUpdate::New(_) => true,
                }
            }),
        ensures
            final(self).inv(),
            final(self).substate_store == old(self).substate_store,
            final(self).loaded_substates == old(self).loaded_substates,
            final(self).iterable_node_reads == old(self).iterable_node_reads,
            ({
                let nm = NodeModule { node_id: *node_id, module_id: *module_id };
                &&& old(self).overlays_match_except(final(self), nm)
                &&& final(self).overlay_contains(nm)
                &&& if old(self).overlay_contains(nm) {
                    match old(self).overlay(nm) {
                        IterableNodeUpdate::New(m) => {
                            &&& final(self).overlay(nm) matches IterableNodeUpdate::New(m1)
                            &&& m1.has_key(key)
                            &&& m1.value_of(key) == value
                            &&& forall|q: u64| q != key ==> m1.has_key(q) == m.has_key(q)
                            &&& forall|q: u64|
                                q != key && m.has_key(q) ==> m1.value_of(q) == m.value_of(q)
                        },
                        IterableNodeUpdate::Update(u) => {
                            &&& final(self).overlay(nm) matches IterableNodeUpdate::Update(u1)
                            &&& u1.has_key(key)
                            &&& u1.value_of(key) == IterableSubstateUpdate::Insert(value)
                            &&& forall|q: u64| q != key ==> u1.has_key(q) == u.has_key(q)
                            &&& forall|q: u64|
                                q != key && u.has_key(q) ==> u1.value_of(q) == u.value_of(q)
                        },
                    }
                } else {
                    &&& final(self).overlay(nm) matches IterableNodeUpdate::Update(u1)
                    &&& u1.entries().len() == 1
                    &&& u1.has_key(key)
                    &&& u1.value_of(key) == IterableSubstateUpdate::Insert(value)
                }
            }),
    {
        let nm = NodeModule { node_id: *node_id, module_id: *module_id };
        let ghost pre = *self;
        match self.iterable_node_updates.index_of(&nm) {
            Some(i) => {
                proof {
                    pre.iterable_node_updates.lemma_index_unique(i as int);
                }
                let slot = self.iterable_node_updates.value_at_mut(i);
                match slot {
                    IterableNodeUpdate::New(m) => {
                        m.insert(key, value);
                    },
                    IterableNodeUpdate::Update(u) => {
                        u.insert(key, IterableSubstateUpdate::Insert(value));
                    },
                }
                proof {
                    OrderedMap::lemma_value_update(
                        pre.iterable_node_updates,
                        self.iterable_node_updates,
                        i as int,
                    );
                    assert forall|j: int|
                        0 <= j < self.iterable_node_updates.entries().len() implies match (
                    #[trigger] self.iterable_node_updates.entries()[j]).1 {
                        IterableNodeUpdate::New(m) => m.wf(),
                        IterableNodeUpdate::Update(m) => m.wf() && m.entries().len()
                            < MAX_COLLECTION_EDITS,
                    } by {
                        if j != i {
                            assert(self.iterable_node_updates.entries()[j]
                                == pre.iterable_node_updates.entries()[j]);
                        }
                    }
                }
            },
            None => {
                let mut u: SortedU64Map<IterableSubstateUpdate> = SortedU64Map::new();
                u.insert(key, IterableSubstateUpdate::Insert(value));
                self.iterable_node_updates.push_new(nm, IterableNodeUpdate::Update(u));
                proof {
                    let n0 = pre.iterable_node_updates.entries().len() as int;
                    assert forall|j: int|
                        0 <= j < self.iterable_node_updates.entries().len() implies match (
                    #[trigger] self.iterable_node_updates.entries()[j]).1 {
                        IterableNodeUpdate::New(m) => m.wf(),
                        IterableNodeUpdate::Update(m) => m.wf() && m.entries().len()
                            < MAX_COLLECTION_EDITS,
                    } by {
                        if j < n0 {
                            assert(self.iterable_node_updates.entries()[j]
                                == pre.iterable_node_updates.entries()[j]);
                        }
                    }
                }
            },
        }
    }

    /// Records a removal from a keyed collection, handing back the removed
    /// value: from the overlay when it shadows the key, else fetched once
    /// from the store; a second removal of the same key returns `None`
    /// without touching the store again.
    pub fn remove_from_iterable(
        &mut self,
        node_id: &RENodeId,
        module_id: &NodeModuleId,
        key: u64,
    ) -> (r: Result<Option<ScryptoValue>, TrackError>)
        requires
            old(self).inv(),
            ({
                let nm = NodeModule { node_id: *node_id, module_id: *module_id };
                old(self).overlay_contains(nm) ==> match old(self).overlay(nm) {
                    IterableNodeUpdate::Update(u) => u.entries().len() + 1 < MAX_COLLECTION_EDITS,
                    IterableNodeUpdate::New(_) => true,
                }
            }),
        ensures
            final(self).inv(),
            final(self).substate_store == old(self).substate_store,
            final(self).loaded_substates == old(self).loaded_substates,
            ({
                let nm = NodeModule { node_id: *node_id, module_id: *module_id };
                let view = old(self).substate_store.iter_view(nm);
                &&& old(self).overlays_match_except(final(self), nm)
                &&& final(self).overlay_contains(nm)
                &&& if old(self).overlay_contains(nm) && old(self).overlay(nm) is New {
                    &&& final(self).iterable_node_reads == old(self).iterable_node_reads
                    &&& match old(self).overlay(nm) {
                        IterableNodeUpdate::New(m) => {
                            &&& final(self).overlay(nm) matches IterableNodeUpdate::New(m1)
                            &&& !m1.has_key(key)
                            &&& forall|q: u64| q != key ==> m1.has_key(q) == m.has_key(q)
                            &&& forall|q: u64|
                                q != key && m.has_key(q) ==> m1.value_of(q) == m.value_of(q)
                            &&& r == Ok::<Option<ScryptoValue>, TrackError>(
                                if m.has_key(key) {
                                    Some(m.value_of(key))
                                } else {
                                    None
                                },
                            )
                        },
                        IterableNodeUpdate::Update(_) => false,
                    }
                } else {
                    &&& (forall|q: NodeModule|
                        q != nm ==> #[trigger] final(self).iterable_node_reads.contains_abs(q)
                            == old(self).iterable_node_reads.contains_abs(q))
                    &&& (forall|q: NodeModule|
                        q != nm && old(self).iterable_node_reads.contains_abs(q)
                            ==> #[trigger] final(self).iterable_node_reads.at_abs(q) == old(
                            self,
                        ).iterable_node_reads.at_abs(q))
                    &&& final(self).iterable_node_reads.contains_abs(nm)
                    &&& final(self).iterable_node_reads.at_abs(nm) == IterableNodeRead::Substate(
                        key,
                    )
                    &&& if old(self).overlay_contains(nm) {
                        match old(self).overlay(nm) {
                            IterableNodeUpdate::Update(u0) => {
                                &&& final(self).overlay(nm) matches IterableNodeUpdate::Update(u1)
                                &&& forall|q: u64| q != key ==> u1.has_key(q) == u0.has_key(q)
                                &&& forall|q: u64|
                                    q != key && u0.has_key(q) ==> u1.value_of(q) == u0.value_of(q)
                                &&& if u0.has_key(key) {
                                    &&& u1.has_key(key)
                                    &&& u1.value_of(key) == IterableSubstateUpdate::Remove
                                    &&& r == Ok::<Option<ScryptoValue>, TrackError>(
                                        match u0.value_of(key) {
                                            IterableSubstateUpdate::Insert(v) => Some(v),
                                            IterableSubstateUpdate::Remove => None,
                                        },
                                    )
                                } else {
                                    if iter_has_key(view, key) {
                                        &&& u1.has_key(key)
                                        &&& u1.value_of(key) == IterableSubstateUpdate::Remove
                                        &&& r matches Ok::<Option<ScryptoValue>, TrackError>(
                                            Some(v),
                                        ) && v.abs() == iter_value_of(view, key)
                                    } else {
                                        &&& !u1.has_key(key)
                                        &&& r == Ok::<Option<ScryptoValue>, TrackError>(None)
                                    }
                                }
                            },
                            IterableNodeUpdate::New(_) => false,
                        }
                    } else {
                        &&& final(self).overlay(nm) matches IterableNodeUpdate::Update(u1)
                        &&& forall|q: u64| q != key ==> !u1.has_key(q)
                        &&& if iter_has_key(view, key) {
                            &&& u1.has_key(key)
                            &&& u1.value_of(key) == IterableSubstateUpdate::Remove
                            &&& r matches Ok::<Option<ScryptoValue>, TrackError>(Some(v))
                                && v.abs() == iter_value_of(view, key)
                        } else {
                            &&& !u1.has_key(key)
                            &&& r == Ok::<Option<ScryptoValue>, TrackError>(None)
                        }
                    }
                }
            }),
    {
        let nm = NodeModule { node_id: *node_id, module_id: *module_id };
        let ghost pre = *self;
        let idx: usize;
        match self.iterable_node_updates.index_of(&nm) {
            Some(i) => {
                idx = i;
            },
            None => {
                idx = self.iterable_node_updates.len();
                self.iterable_node_updates.push_new(
                    nm,
                    IterableNodeUpdate::Update(SortedU64Map::new()),
                );
            },
        }
        proof {
            self.iterable_node_updates.lemma_index_unique(idx as int);
        }
        let is_new = match self.iterable_node_updates.value_at(idx) {
            IterableNodeUpdate::New(_) => true,
            IterableNodeUpdate::Update(_) => false,
        };
        if is_new {
            let ghost before = self.iterable_node_updates;
            let slot = self.iterable_node_updates.value_at_mut(idx);
            let removed = match slot {
                IterableNodeUpdate::New(m) => m.remove(key),
                IterableNodeUpdate::Update(_) => None,
            };
            proof {
                OrderedMap::lemma_value_update(before, self.iterable_node_updates, idx as int);
                assert forall|j: int|
                    0 <= j < self.iterable_node_updates.entries().len() implies match (
                #[trigger] self.iterable_node_updates.entries()[j]).1 {
                    IterableNodeUpdate::New(m) => m.wf(),
                    IterableNodeUpdate::Update(m) => m.wf() && m.entries().len()
                        < MAX_COLLECTION_EDITS,
                } by {
                    if j != idx {
                        assert(self.iterable_node_updates.entries()[j] == before.entries()[j]);
                    }
                }
            }
            return Ok(removed);
        }
        // An edit overlay: record the point read, then consult the edits and,
        // only when the key is untouched, the store.
        self.iterable_node_reads.insert_entry(nm, IterableNodeRead::Substate(key));
        let has_edit = match self.iterable_node_updates.value_at(idx) {
            IterableNodeUpdate::Update(u) => u.index_of_key(key).is_some(),
            IterableNodeUpdate::New(_) => false,
        };
        if has_edit {
            let ghost before = self.iterable_node_updates;
            let slot = self.iterable_node_updates.value_at_mut(idx);
            let removed = match slot {
                IterableNodeUpdate::Update(u) => {
                    match u.remove(key) {
                        Some(IterableSubstateUpdate::Insert(v)) => {
                            u.insert(key, IterableSubstateUpdate::Remove);
                            Some(v)
                        },
                        Some(IterableSubstateUpdate::Remove) => {
                            u.insert(key, IterableSubstateUpdate::Remove);
                            None
                        },
                        None => None,
                    }
                },
                IterableNodeUpdate::New(_) => None,
            };
            proof {
                OrderedMap::lemma_value_update(before, self.iterable_node_updates, idx as int);
                assert forall|j: int|
                    0 <= j < self.iterable_node_updates.entries().len() implies match (
                #[trigger] self.iterable_node_updates.entries()[j]).1 {
                    IterableNodeUpdate::New(m) => m.wf(),
                    IterableNodeUpdate::Update(m) => m.wf() && m.entries().len()
                        < MAX_COLLECTION_EDITS,
                } by {
                    if j != idx {
                        assert(self.iterable_node_updates.entries()[j] == before.entries()[j]);
                    }
                }
            }
            return Ok(removed);
        }
        let substate_id = SubstateId(*node_id, *module_id, SubstateOffset::IterableMap(key));
        match self.substate_store.get_substate(&substate_id) {
            None => {
                proof {
                    assert(!iter_has_key(pre.substate_store.iter_view(nm), key));
                }
                Ok(None)
            },
            Some(output) => {
                proof {
                    let view = pre.substate_store.iter_view(nm);
                    assert(substate_id.abs().offset == SubstateOffsetAbs::IterableMap(key));
                    assert(substate_id.abs().node_id == *node_id);
                    assert(view == self.substate_store.iter_view(
                        NodeModule {
                            node_id: substate_id.abs().node_id,
                            module_id: substate_id.abs().module_id,
                        },
                    ));
                    assert(exists|i: int|
                        0 <= i < view.len() && (#[trigger] view[i]).0 == key
                            && output.abs().substate == SubstateAbs::IterableEntry(view[i].1));
                    let i = choose|i: int|
                        0 <= i < view.len() && (#[trigger] view[i]).0 == key
                            && output.abs().substate == SubstateAbs::IterableEntry(view[i].1);
                    assert(iter_has_key(view, key));
                    pre.substate_store.lemma_views_wf(nm);
                    lemma_iter_at(view, i);
                    assert(output.substate.abs() == SubstateAbs::IterableEntry(
                        iter_value_of(view, key),
                    ));
                }
                let value = match output.substate {
                    PersistedSubstate::IterableEntry(v) => v,
                    _ => vstd::pervasive::unreached(),
                };
                proof {
                    assert(value.abs() == iter_value_of(pre.substate_store.iter_view(nm), key));
                }
                let ghost before = self.iterable_node_updates;
                let slot = self.iterable_node_updates.value_at_mut(idx);
                match slot {
                    IterableNodeUpdate::Update(u) => {
                        u.insert(key, IterableSubstateUpdate::Remove);
                    },
                    IterableNodeUpdate::New(_) => {},
                }
                proof {
                    OrderedMap::lemma_value_update(before, self.iterable_node_updates, idx as int);
                    assert forall|j: int|
                        0 <= j < self.iterable_node_updates.entries().len() implies match (
                    #[trigger] self.iterable_node_updates.entries()[j]).1 {
                        IterableNodeUpdate::New(m) => m.wf(),
                        IterableNodeUpdate::Update(m) => m.wf() && m.entries().len()
                            < MAX_COLLECTION_EDITS,
                    } by {
                        if j != idx {
                            assert(self.iterable_node_updates.entries()[j] == before.entries()[j]);
                        }
                    }
                }
                Ok(Some(value))
            },
        }
    }

    /// Reads the first `count` live entries of one keyed collection, in key
    /// order, merging the overlay's edits over the stored collection without
    /// materialising more of the store than the scan needs.
    pub fn get_first_in_iterable(
        &mut self,
        node_id: &RENodeId,
        module_id: &NodeModuleId,
        count: u32,
    ) -> (r: Result<Vec<(SubstateId, RuntimeSubstate)>, RuntimeError>)
        requires
            old(self).inv(),
            count as int + MAX_COLLECTION_EDITS <= usize::MAX,
        ensures
            final(self).inv(),
            final(self).substate_store == old(self).substate_store,
            final(self).loaded_substates == old(self).loaded_substates,
            final(self).iterable_node_updates == old(self).iterable_node_updates,
            r is Ok,
            ({
                let nm = NodeModule { node_id: *node_id, module_id: *module_id };
                let view = old(self).substate_store.iter_view(nm);
                let out = r->Ok_0;
                &&& (forall|i: int|
                    0 <= i < out@.len() ==> (#[trigger] out@[i]).0.abs() == (SubstateIdAbs {
                        node_id: *node_id,
                        module_id: *module_id,
                        offset: SubstateOffsetAbs::IterableMap(out_key(out@[i])),
                    }))
                &&& (forall|i: int, j: int|
                    0 <= i < j < out@.len() ==> out_key(#[trigger] out@[i]) < out_key(
                        #[trigger] out@[j],
                    ))
                &&& if old(self).overlay_contains(nm) {
                    match old(self).overlay(nm) {
                        IterableNodeUpdate::New(m) => {
                            &&& final(self).iterable_node_reads == old(self).iterable_node_reads
                            &&& out@.len() == if count as int <= m.entries().len() {
                                count as int
                            } else {
                                m.entries().len() as int
                            }
                            &&& (forall|i: int|
                                0 <= i < out@.len() ==> out_key(#[trigger] out@[i])
                                    == m.entries()[i].0 && out@[i].1.abs()
                                    == SubstateAbs::IterableEntry(m.entries()[i].1.abs()))
                        },
                        IterableNodeUpdate::Update(u) => {
                            &&& final(self).iterable_node_reads == old(self).iterable_node_reads
                            &&& out@.len() <= count as int
                            &&& (forall|i: int|
                                0 <= i < out@.len() ==> edits_live(
                                    u,
                                    view,
                                    out_key(#[trigger] out@[i]),
                                ) && out@[i].1.abs() == SubstateAbs::IterableEntry(
                                    edits_value(u, view, out_key(out@[i])),
                                ))
                            &&& (out@.len() < count as int ==> forall|k: u64|
                                edits_live(u, view, k) ==> exists|i: int|
                                    0 <= i < out@.len() && out_key(#[trigger] out@[i]) == k)
                            &&& (forall|k: u64|
                                #![trigger edits_live(u, view, k)]
                                edits_live(u, view, k) ==> ((exists|i: int|
                                    0 <= i < out@.len() && out_key(#[trigger] out@[i]) == k) || (
                                forall|i: int|
                                    0 <= i < out@.len() ==> out_key(#[trigger] out@[i]) < k)))
                        },
                    }
                } else {
                    &&& out@.len() == if count as int <= view.len() {
                        count as int
                    } else {
                        view.len() as int
                    }
                    &&& (forall|i: int|
                        0 <= i < out@.len() ==> out_key(#[trigger] out@[i]) == view[i].0
                            && out@[i].1.abs() == SubstateAbs::IterableEntry(view[i].1))
                    &&& final(self).iterable_node_reads.contains_abs(nm)
                    &&& final(self).iterable_node_reads.at_abs(nm) == IterableNodeRead::FirstRange(
                        count,
                    )
                    &&& (forall|q: NodeModule|
                        q != nm ==> #[trigger] final(self).iterable_node_reads.contains_abs(q)
                            == old(self).iterable_node_reads.contains_abs(q))
                    &&& (forall|q: NodeModule|
                        q != nm && old(self).iterable_node_reads.contains_abs(q)
                            ==> #[trigger] final(self).iterable_node_reads.at_abs(q) == old(
                            self,
                        ).iterable_node_reads.at_abs(q))
                }
            }),
    {
        let nm = NodeModule { node_id: *node_id, module_id: *module_id };
        let ghost pre = *self;
        let ghost view = pre.substate_store.iter_view(nm);
        match self.iterable_node_updates.index_of(&nm) {
            Some(idx) => {
                proof {
                    self.iterable_node_updates.lemma_index_unique(idx as int);
                }
                let slot = self.iterable_node_updates.value_at(idx);
                match slot {
                    IterableNodeUpdate::New(m) => {
                        let n = m.len();
                        let limit: usize = if (count as usize) <= n {
                            count as usize
                        } else {
                            n
                        };
                        let mut out: Vec<(SubstateId, RuntimeSubstate)> = Vec::new();
                        let mut i: usize = 0;
                        while i < limit
                            invariant
                                m.wf(),
                                limit <= m.entries().len(),
                                i <= limit,
                                out@.len() == i as int,
                                forall|j: int|
                                    0 <= j < i ==> out_key(#[trigger] out@[j])
                                        == m.entries()[j].0 && out@[j].1.abs()
                                        == SubstateAbs::IterableEntry(m.entries()[j].1.abs())
                                        && out@[j].0.abs() == (SubstateIdAbs {
                                        node_id: *node_id,
                                        module_id: *module_id,
                                        offset: SubstateOffsetAbs::IterableMap(
                                            m.entries()[j].0,
                                        ),
                                    }),
                            decreases limit - i,
                        {
                            let entry = m.entry_at(i);
                            out.push(
                                (
                                    SubstateId(
                                        *node_id,
                                        *module_id,
                                        SubstateOffset::IterableMap(entry.0),
                                    ),
                                    RuntimeSubstate::IterableEntry(entry.1.duplicate()),
                                ),
                            );
                            i = i + 1;
                        }
                        Ok(out)
                    },
                    IterableNodeUpdate::Update(u) => {
                        proof {
                            pre.substate_store.lemma_views_wf(nm);
                            assert(match self.iterable_node_updates.entries()[idx as int].1 {
                                IterableNodeUpdate::New(m) => m.wf(),
                                IterableNodeUpdate::Update(m) => m.wf() && m.entries().len()
                                    < MAX_COLLECTION_EDITS,
                            });
                        }
                        let u_len = u.len();
                        let num_to_retrieve: usize = count as usize + u_len;
                        let stored = self.substate_store.first_in_iterable(
                            node_id,
                            *module_id,
                            num_to_retrieve,
                        );
                        let mut merged: SortedU64Map<ScryptoValue> = SortedU64Map::new();
                        // Lay the overlay's inserts down first.
                        let mut t: usize = 0;
                        while t < u_len
                            invariant
                                u.wf(),
                                merged.wf(),
                                u_len == u.entries().len(),
                                t <= u_len,
                                forall|tp: int|
                                    0 <= tp < t && (#[trigger] u.entries()[tp]).1 is Insert
                                        ==> merged.has_key(u.entries()[tp].0)
                                        && merged.value_of(u.entries()[tp].0).abs()
                                        == u.entries()[tp].1->Insert_0.abs(),
                                forall|k: u64|
                                    #[trigger] merged.has_key(k) ==> exists|tp: int|
                                        0 <= tp < t && (#[trigger] u.entries()[tp]).0 == k
                                            && u.entries()[tp].1 is Insert,
                                merged.entries().len() <= t,
                            decreases u_len - t,
                        {
                            let entry = u.entry_at(t);
                            match &entry.1 {
                                IterableSubstateUpdate::Insert(v) => {
                                    merged.insert(entry.0, v.duplicate());
                                    proof {
                                        u.lemma_key_index(t as int);
                                    }
                                },
                                IterableSubstateUpdate::Remove => {},
                            }
                            t = t + 1;
                        }
                        proof {
                            assert forall|k: u64|
                                #[trigger] merged.has_key(k) implies u.has_key(k) && u.value_of(
                                k,
                            ) is Insert && merged.value_of(k).abs() == u.value_of(
                                k,
                            )->Insert_0.abs() by {
                                let tp = choose|tp: int|
                                    0 <= tp < u_len && (#[trigger] u.entries()[tp]).0 == k
                                        && u.entries()[tp].1 is Insert;
                                u.lemma_key_index(tp);
                            }
                            assert forall|k: u64|
                                u.has_key(k) && u.value_of(k) is Insert implies
                                #[trigger] merged.has_key(k) by {
                                let tp = u.key_index(k);
                                assert(u.entries()[tp].1 is Insert);
                            }
                        }
                        let ghost len1 = merged.entries().len() as int;
                        let ghost shadow = Set::<int>::empty();
                        let mut shadow_tracker: Ghost<Set<int>> = Ghost(shadow);
                        let ghost mut live_keys: Seq<u64> = Seq::empty();
                        // Overlay the stored entries the edits do not shadow.
                        let stored_len = stored.len();
                        let mut j: usize = 0;
                        while j < stored_len
                            invariant
                                u.wf(),
                                merged.wf(),
                                u_len == u.entries().len(),
                                stored_len == stored@.len(),
                                stored@.len() <= view.len(),
                                forall|jp: int|
                                    0 <= jp < stored@.len() ==> (#[trigger] stored@[jp]).0
                                        == view[jp].0 && stored@[jp].1.abs() == view[jp].1,
                                iter_sorted(view),
                                j <= stored_len,
                                shadow_tracker@.finite(),
                                shadow_tracker@.subset_of(
                                    vstd::set_lib::set_int_range(0, u_len as int),
                                ),
                                merged.entries().len() == len1 + j - shadow_tracker@.len(),
                                shadow_tracker@.len() <= j,
                                forall|x: int|
                                    #[trigger] shadow_tracker@.contains(x) ==> exists|jp: int|
                                        0 <= jp < j && u.has_key((#[trigger] stored@[jp]).0)
                                            && u.key_index(stored@[jp].0) == x,
                                forall|k: u64|
                                    #[trigger] merged.has_key(k) <==> ((u.has_key(k)
                                        && u.value_of(k) is Insert) || (exists|jp: int|
                                        0 <= jp < j && (#[trigger] stored@[jp]).0 == k
                                            && !u.has_key(k))),
                                forall|k: u64|
                                    #[trigger] merged.has_key(k) ==> merged.value_of(k).abs()
                                        == edits_value(*u, view, k),
                                live_keys.len() == j - shadow_tracker@.len(),
                                forall|a: int, b: int|
                                    0 <= a < b < live_keys.len() ==> live_keys[a] < live_keys[b],
                                forall|t: int|
                                    0 <= t < live_keys.len() ==> #[trigger] merged.has_key(
                                        live_keys[t],
                                    ),
                                forall|t: int|
                                    #![trigger live_keys[t]]
                                    0 <= t < live_keys.len() ==> exists|jp: int|
                                        0 <= jp < j && (#[trigger] stored@[jp]).0 == live_keys[t],
                            decreases stored_len - j,
                        {
                            let key = stored[j].0;
                            match u.index_of_key(key) {
                                Some(ui) => {
                                    proof {
                                        let x = u.key_index(key);
                                        assert(!shadow_tracker@.contains(x)) by {
                                            if shadow_tracker@.contains(x) {
                                                let jp = choose|jp: int|
                                                    0 <= jp < j && u.has_key(
                                                        (#[trigger] stored@[jp]).0,
                                                    ) && u.key_index(stored@[jp].0) == x;
                                                assert(u.entries()[x].0 == stored@[jp].0);
                                                assert(u.entries()[x].0 == key);
                                                assert(view[jp].0 == view[j as int].0);
                                                assert(view[jp].0 < view[j as int].0);
                                            }
                                        }
                                        let pre_shadow = shadow_tracker@;
                                        shadow_tracker@ = shadow_tracker@.insert(x);
                                        assert(shadow_tracker@.len() == pre_shadow.len() + 1);
                                    }
                                },
                                None => {
                                    let ghost merged0 = merged;
                                    let ghost live0 = live_keys;
                                    let value_copy = stored[j].1.duplicate();
                                    merged.insert(key, value_copy);
                                    proof {
                                        lemma_iter_at(view, j as int);
                                        assert(iter_value_of(view, key) == view[j as int].1);
                                        assert(!merged0.has_key(key)) by {
                                            if merged0.has_key(key) {
                                                let jp = choose|jp: int|
                                                    0 <= jp < j && (#[trigger] stored@[jp]).0
                                                        == key && !u.has_key(key);
                                                assert(view[jp].0 < view[j as int].0);
                                            }
                                        }
                                        assert forall|t: int|
                                            0 <= t < live0.len() implies live0[t] < key by {
                                            let jp = choose|jp: int|
                                                0 <= jp < j && (#[trigger] stored@[jp]).0
                                                    == live0[t];
                                            assert(view[jp].0 < view[j as int].0);
                                        }
                                        live_keys = live_keys.push(key);
                                        assert(live_keys.drop_last() =~= live0);
                                        assert(live_keys.last() == key);
                                        assert forall|t: int|
                                            0 <= t < live_keys.len() implies
                                            #[trigger] merged.has_key(live_keys[t]) by {
                                            if t < live0.len() {
                                                assert(live_keys[t] == live0[t]);
                                                assert(merged0.has_key(live0[t]));
                                            } else {
                                                assert(live_keys[t] == key);
                                            }
                                        }
                                        assert forall|t: int|
                                            #![trigger live_keys[t]]
                                            0 <= t < live_keys.len() implies exists|jp: int|
                                                0 <= jp < j + 1 && (#[trigger] stored@[jp]).0
                                                    == live_keys[t] by {
                                            if t < live0.len() {
                                                let jp = choose|jp: int|
                                                    0 <= jp < j && (#[trigger] stored@[jp]).0
                                                        == live0[t];
                                                assert(0 <= jp < j + 1 && stored@[jp].0
                                                    == live_keys[t]);
                                            } else {
                                                assert(stored@[j as int].0 == live_keys[t]);
                                            }
                                        }
                                    }
                                },
                            }
                            j = j + 1;
                        }
                        proof {
                            vstd::set_lib::lemma_int_range(0, u_len as int);
                            vstd::set_lib::lemma_len_subset(
                                shadow_tracker@,
                                vstd::set_lib::set_int_range(0, u_len as int),
                            );
                            assert(merged.entries().len() >= stored@.len() - u_len);
                        }
                        // Hand the first `count` merged entries out.
                        let merged_len = merged.len();
                        let limit: usize = if (count as usize) <= merged_len {
                            count as usize
                        } else {
                            merged_len
                        };
                        let mut out: Vec<(SubstateId, RuntimeSubstate)> = Vec::new();
                        let mut i: usize = 0;
                        while i < limit
                            invariant
                                merged.wf(),
                                u.wf(),
                                limit <= merged.entries().len(),
                                i <= limit,
                                out@.len() == i as int,
                                forall|k: u64|
                                    #[trigger] merged.has_key(k) ==> edits_live(*u, view, k)
                                        && merged.value_of(k).abs() == edits_value(*u, view, k),
                                forall|jp: int|
                                    0 <= jp < i ==> out_key(#[trigger] out@[jp])
                                        == merged.entries()[jp].0 && out@[jp].1.abs()
                                        == SubstateAbs::IterableEntry(
                                        merged.entries()[jp].1.abs(),
                                    ) && out@[jp].0.abs() == (SubstateIdAbs {
                                        node_id: *node_id,
                                        module_id: *module_id,
                                        offset: SubstateOffsetAbs::IterableMap(
                                            merged.entries()[jp].0,
                                        ),
                                    }),
                            decreases limit - i,
                        {
                            let entry = merged.entry_at(i);
                            out.push(
                                (
                                    SubstateId(
                                        *node_id,
                                        *module_id,
                                        SubstateOffset::IterableMap(entry.0),
                                    ),
                                    RuntimeSubstate::IterableEntry(entry.1.duplicate()),
                                ),
                            );
                            i = i + 1;
                        }
                        proof {
                            assert forall|ip: int|
                                0 <= ip < out@.len() implies edits_live(
                                *u,
                                view,
                                out_key(#[trigger] out@[ip]),
                            ) && out@[ip].1.abs() == SubstateAbs::IterableEntry(
                                edits_value(*u, view, out_key(out@[ip])),
                            ) by {
                                merged.lemma_key_index(ip);
                            }
                            if out@.len() < count as int {
                                assert(limit == merged.entries().len());
                                assert forall|k: u64| edits_live(*u, view, k) implies exists|
                                    ip: int,
                                |
                                    0 <= ip < out@.len() && out_key(#[trigger] out@[ip])
                                        == k by {
                                    assert(merged.has_key(k)) by {
                                        if !u.has_key(k) {
                                            assert(iter_has_key(view, k));
                                            let iv = iter_key_index(view, k);
                                            assert(0 <= iv < view.len() && view[iv].0 == k);
                                            if iv >= stored@.len() {
                                                assert(stored@.len() < view.len());
                                                assert(stored@.len() == num_to_retrieve);
                                                assert(merged.entries().len() >= count as int);
                                                assert(false);
                                            }
                                            assert(stored@[iv].0 == k);
                                        }
                                    }
                                    let mi = merged.key_index(k);
                                    assert(out_key(out@[mi]) == k);
                                }
                            }
                            assert forall|k: u64|
                                #![trigger edits_live(*u, view, k)]
                                edits_live(*u, view, k) implies ((exists|ip: int|
                                0 <= ip < out@.len() && out_key(#[trigger] out@[ip]) == k) || (
                            forall|ip: int|
                                0 <= ip < out@.len() ==> out_key(#[trigger] out@[ip]) < k)) by {
                                if !(exists|ip: int|
                                    0 <= ip < out@.len() && out_key(#[trigger] out@[ip]) == k) {
                                    if merged.has_key(k) {
                                        let miq = merged.key_index(k);
                                        assert(0 <= miq < merged.entries().len()
                                            && merged.entries()[miq].0 == k);
                                        if miq < limit {
                                            assert(out_key(out@[miq]) == k);
                                            assert(false);
                                        }
                                        assert forall|ip: int|
                                            0 <= ip < out@.len() implies out_key(
                                            #[trigger] out@[ip],
                                        ) < k by {
                                            assert(out_key(out@[ip]) == merged.entries()[ip].0);
                                            assert(merged.entries()[ip].0
                                                < merged.entries()[miq].0);
                                        }
                                    } else {
                                        assert(!u.has_key(k) && iter_has_key(view, k));
                                        let iv = iter_key_index(view, k);
                                        assert(0 <= iv < view.len() && view[iv].0 == k);
                                        if iv < stored@.len() {
                                            assert(stored@[iv].0 == k);
                                            assert(merged.has_key(k));
                                            assert(false);
                                        }
                                        assert(stored@.len() < view.len());
                                        assert(stored@.len() == num_to_retrieve);
                                        assert(live_keys.len() >= count as int);
                                        assert forall|t: int|
                                            0 <= t < live_keys.len() implies live_keys[t]
                                            < k by {
                                            let jp = choose|jp: int|
                                                0 <= jp < stored@.len() && (
                                                #[trigger] stored@[jp]).0 == live_keys[t];
                                            assert(view[jp].0 < view[iv].0);
                                        }
                                        if count == 0 {
                                            assert(out@.len() == 0);
                                        } else {
                                            merged.lemma_subseq_index(
                                                live_keys,
                                                count as int - 1,
                                            );
                                            assert(merged.has_key(
                                                live_keys[count as int - 1],
                                            ));
                                            let kc = merged.key_index(
                                                live_keys[count as int - 1],
                                            );
                                            assert(kc >= count as int - 1);
                                            assert(merged.entries()[kc].0 == live_keys[
                                                count as int - 1]);
                                            assert(merged.entries().len() >= count as int);
                                            assert(limit == count as usize);
                                            assert forall|ip: int|
                                                0 <= ip < out@.len() implies out_key(
                                                #[trigger] out@[ip],
                                            ) < k by {
                                                assert(out_key(out@[ip])
                                                    == merged.entries()[ip].0);
                                                if ip < kc {
                                                    assert(merged.entries()[ip].0
                                                        < merged.entries()[kc].0);
                                                }
                                                assert(merged.entries()[kc].0 < k);
                                            }
                                        }
                                    }
                                }
                            }
                        }
                        Ok(out)
                    },
                }
            },
            None => {
                self.iterable_node_reads.insert_entry(nm, IterableNodeRead::FirstRange(count));
                let stored = self.substate_store.first_in_iterable(
                    node_id,
                    *module_id,
                    count as usize,
                );
                let stored_len = stored.len();
                let mut out: Vec<(SubstateId, RuntimeSubstate)> = Vec::new();
                let mut i: usize = 0;
                while i < stored_len
                    invariant
                        stored_len == stored@.len(),
                        forall|jp: int|
                            0 <= jp < stored@.len() ==> (#[trigger] stored@[jp]).0 == view[jp].0
                                && stored@[jp].1.abs() == view[jp].1,
                        stored@.len() <= view.len(),
                        i <= stored_len,
                        out@.len() == i as int,
                        forall|jp: int|
                            0 <= jp < i ==> out_key(#[trigger] out@[jp]) == view[jp].0
                                && out@[jp].1.abs() == SubstateAbs::IterableEntry(view[jp].1)
                                && out@[jp].0.abs() == (SubstateIdAbs {
                                node_id: *node_id,
                                module_id: *module_id,
                                offset: SubstateOffsetAbs::IterableMap(view[jp].0),
                            }),
                    decreases stored_len - i,
                {
                    let entry_key = stored[i].0;
                    let value_copy = stored[i].1.duplicate();
                    out.push(
                        (
                            SubstateId(
                                *node_id,
                                *module_id,
                                SubstateOffset::IterableMap(entry_key),
                            ),
                            RuntimeSubstate::IterableEntry(value_copy),
                        ),
                    );
                    i = i + 1;
                }
                proof {
                    pre.substate_store.lemma_views_wf(nm);
                    assert forall|a: int, b: int| 0 <= a < b < out@.len() implies out_key(
                        #[trigger] out@[a],
                    ) < out_key(#[trigger] out@[b]) by {
                        assert(view[a].0 < view[b].0);
                    }
                }
                Ok(out)
            },
        }
    }
}

/// The three fates of a finished transaction: commit (success or failure),
/// reject (no state change at all), or abort (fatal condition).
pub enum TransactionResultType {
    Commit(Result<Vec<InstructionOutput>, RuntimeError>),
    Reject(RejectionError),
    Abort(AbortReason),
}

/// How a raw execution result and the loan-repayment state classify: an
/// epoch-validity error rejects; an explicit abort marker aborts; an unpaid
/// loan rejects whatever happened; everything else commits.
pub open spec fn spec_determine_result_type(
    invoke_result: Result<Vec<InstructionOutput>, RuntimeError>,
    is_loan_fully_repaid: bool,
) -> TransactionResultType {
    match invoke_result {
        Err(
            RuntimeError::ApplicationError(
                ApplicationError::TransactionProcessorError(
                    TransactionProcessorError::TransactionEpochNotYetValid {
                        valid_from,
                        current_epoch,
                    },
                ),
            ),
        ) => TransactionResultType::Reject(
            RejectionError::TransactionEpochNotYetValid { valid_from, current_epoch },
        ),
        Err(
            RuntimeError::ApplicationError(
                ApplicationError::TransactionProcessorError(
                    TransactionProcessorError::TransactionEpochNoLongerValid {
                        valid_until,
                        current_epoch,
                    },
                ),
            ),
        ) => TransactionResultType::Reject(
            RejectionError::TransactionEpochNoLongerValid { valid_until, current_epoch },
        ),
        Err(err) => {
            if err.spec_abortion() is Some {
                TransactionResultType::Abort(err.spec_abortion()->Some_0)
            } else if !is_loan_fully_repaid {
                TransactionResultType::Reject(RejectionError::ErrorBeforeFeeLoanRepaid(err))
            } else {
                TransactionResultType::Commit(Err(err))
            }
        },
        Ok(outputs) => {
            if !is_loan_fully_repaid {
                TransactionResultType::Reject(RejectionError::SuccessButFeeLoanNotRepaid)
            } else {
                TransactionResultType::Commit(Ok(outputs))
            }
        },
    }
}

/// Classifies a finished execution, exactly as the specification function
/// says: rejection must be distinguished from commit-with-failure, else a
/// failed transaction could leak state or dodge its fees.
pub fn determine_result_type(
    invoke_result: Result<Vec<InstructionOutput>, RuntimeError>,
    is_loan_fully_repaid: bool,
) -> (r: TransactionResultType)
    ensures
        r == spec_determine_result_type(invoke_result, is_loan_fully_repaid),
{
    let is_epoch_not_yet: bool = match &invoke_result {
        Err(
            RuntimeError::ApplicationError(
                ApplicationError::TransactionProcessorError(
                    TransactionProcessorError::TransactionEpochNotYetValid { .. },
                ),
            ),
        ) => true,
        _ => false,
    };
    if is_epoch_not_yet {
        match invoke_result {
            Err(
                RuntimeError::ApplicationError(
                    ApplicationError::TransactionProcessorError(
                        TransactionProcessorError::TransactionEpochNotYetValid {
                            valid_from,
                            current_epoch,
                        },
                    ),
                ),
            ) => {
                return TransactionResultType::Reject(
                    RejectionError::TransactionEpochNotYetValid { valid_from, current_epoch },
                );
            },
            _ => {
                return vstd::pervasive::unreached();
            },
        }
    }
    let is_epoch_no_longer: bool = match &invoke_result {
        Err(
            RuntimeError::ApplicationError(
                ApplicationError::TransactionProcessorError(
                    TransactionProcessorError::TransactionEpochNoLongerValid { .. },
                ),
            ),
        ) => true,
        _ => false,
    };
    if is_epoch_no_longer {
        match invoke_result {
            Err(
                RuntimeError::ApplicationError(
                    ApplicationError::TransactionProcessorError(
                        TransactionProcessorError::TransactionEpochNoLongerValid {
                            valid_until,
                            current_epoch,
                        },
                    ),
                ),
            ) => {
                return TransactionResultType::Reject(
                    RejectionError::TransactionEpochNoLongerValid { valid_until, current_epoch },
                );
            },
            _ => {
                return vstd::pervasive::unreached();
            },
        }
    }
    match &invoke_result {
        Err(err) => {
            match err.abortion() {
                Some(reason) => {
                    return TransactionResultType::Abort(reason);
                },
                None => {},
            }
        },
        Ok(_) => {},
    }
    if !is_loan_fully_repaid {
        return match invoke_result {
            Ok(_) => TransactionResultType::Reject(RejectionError::SuccessButFeeLoanNotRepaid),
            Err(error) => TransactionResultType::Reject(
                RejectionError::ErrorBeforeFeeLoanRepaid(error),
            ),
        };
    }
    TransactionResultType::Commit(invoke_result)
}

/// Reject means no-op: an execution whose loan was never repaid, with no
/// abort marker and no epoch-validity error, always classifies as a
/// rejection — never a commit, so no state change of any kind may occur.
pub proof fn lemma_unpaid_loan_rejects(invoke_result: Result<Vec<InstructionOutput>, RuntimeError>)
    requires
        invoke_result matches Err(e) ==> e.spec_abortion() is None,
        !(invoke_result matches Err(RuntimeError::ApplicationError(
            ApplicationError::TransactionProcessorError(tpe),
        )) && (tpe is TransactionEpochNotYetValid || tpe is TransactionEpochNoLongerValid)),
    ensures
        spec_determine_result_type(invoke_result, false) is Reject,
{
}

/// Lock exclusivity: when an exclusive lock request on a substate succeeds,
/// a second exclusive request on the same substate, made before any release,
/// fails with `SubstateLocked` showing the writer.
pub proof fn lemma_lock_exclusivity(row: RowAbs, first_id: SubstateId, second_id: SubstateId)
    requires
        spec_acquire(row, first_id, LockFlags { mutable: true, unmodified_base: false, force_write: false }) is Ok,
    ensures
        ({
            let row1 = spec_acquire(
                row,
                first_id,
                LockFlags { mutable: true, unmodified_base: false, force_write: false },
            )->Ok_0;
            forall|flags: LockFlags|
                flags.mutable && !flags.unmodified_base ==> #[trigger] spec_acquire(
                    row1,
                    second_id,
                    flags,
                ) == Err::<RowAbs, TrackError>(
                    TrackError::SubstateLocked(second_id, LockState::Write),
                )
        }),
{
}

/// Reader/writer exclusion: while at least one shared reader holds a
/// substate, an exclusive request fails with `SubstateLocked`; after the last
/// reader releases, the same exclusive request succeeds.
pub proof fn lemma_reader_writer_exclusion(
    row: RowAbs,
    read_id: SubstateId,
    write_id: SubstateId,
)
    requires
        row.lock_state == LockState::Read(0usize),
        !(row.metastate is New),
        row.metastate matches MetaAbs::Existing { state, .. } ==> state is Loaded,
    ensures
        ({
            let read_flags = LockFlags { mutable: false, unmodified_base: false, force_write: false };
            let write_flags = LockFlags { mutable: true, unmodified_base: false, force_write: false };
            let row_read = spec_acquire(row, read_id, read_flags)->Ok_0;
            &&& spec_acquire(row, read_id, read_flags) is Ok
            &&& row_read.lock_state == LockState::Read(1usize)
            &&& spec_acquire(row_read, write_id, write_flags) == Err::<RowAbs, TrackError>(
                TrackError::SubstateLocked(write_id, LockState::Read(1usize)),
            )
            &&& spec_release(row_read, false) is Ok
            &&& spec_acquire(spec_release(row_read, false)->Ok_0, write_id, write_flags) is Ok
            &&& spec_acquire(spec_release(row_read, false)->Ok_0, write_id, write_flags)->Ok_0
                == (RowAbs { lock_state: LockState::Write, ..row })
        }),
{
}

/// No internal-reference leakage: releasing a write lock on a substate whose
/// content holds a non-global reference fails with `InternalRefNotAllowed`;
/// with only global references the release succeeds.
pub proof fn lemma_no_internal_ref_leakage(row: RowAbs, force_write: bool)
    requires
        row.lock_state == LockState::Write,
    ensures
        !all_global(spec_references(row.substate)) <==> spec_release(row, force_write) == Err::<
            RowAbs,
            TrackError,
        >(TrackError::InternalRefNotAllowed),
{
}

} // verus!
