//! Insertion-ordered association maps with unique keys.
//!
//! The engine keys its overlays by composite identifiers and needs a
//! deterministic iteration order (the insertion order), so the maps here are
//! backed by a vector of pairs with a no-duplicate-keys invariant.

use vstd::prelude::*;

verus! {

/// A key type usable in an [`OrderedMap`]: it has a mathematical key value
/// and an executable equality test that decides equality of those values.
pub trait EqKey: Sized {
    /// The mathematical value that identifies this key.
    type Abs;

    /// The mathematical key of this value.
    spec fn key(&self) -> Self::Abs;

    /// Decides whether two keys are the same.
    fn eq_key(&self, other: &Self) -> (r: bool)
        ensures
            r <==> self.key() == other.key(),
    ;
}

/// An insertion-ordered map from `K` to `V` with pairwise-distinct keys.
pub struct OrderedMap<K, V> {
    pub pairs: Vec<(K, V)>,
}

impl<K: EqKey, V> OrderedMap<K, V> {
    /// The entries, in insertion order.
    pub open spec fn entries(&self) -> Seq<(K, V)> {
        self.pairs@
    }

    /// Keys are pairwise distinct.
    pub open spec fn wf(&self) -> bool {
        forall|i: int, j: int|
            0 <= i < j < self.entries().len() ==> (#[trigger] self.entries()[i]).0.key()
                != (#[trigger] self.entries()[j]).0.key()
    }

    /// Whether some entry has the mathematical key `k`.
    pub open spec fn contains_abs(&self, k: <K as EqKey>::Abs) -> bool {
        exists|i: int|
            0 <= i < self.entries().len() && (#[trigger] self.entries()[i]).0.key() == k
    }

    /// The index of the entry with mathematical key `k` (meaningful only when
    /// `contains_abs(k)` holds).
    pub open spec fn index_of_abs(&self, k: <K as EqKey>::Abs) -> int {
        choose|i: int|
            0 <= i < self.entries().len() && (#[trigger] self.entries()[i]).0.key() == k
    }

    /// The value stored under mathematical key `k` (meaningful only when
    /// `contains_abs(k)` holds).
    pub open spec fn at_abs(&self, k: <K as EqKey>::Abs) -> V {
        self.entries()[self.index_of_abs(k)].1
    }

    /// In a well-formed map, an entry's position is determined by its key.
    pub proof fn lemma_index_unique(&self, i: int)
        requires
            self.wf(),
            0 <= i < self.entries().len(),
        ensures
            self.contains_abs(self.entries()[i].0.key()),
            self.index_of_abs(self.entries()[i].0.key()) == i,
            self.at_abs(self.entries()[i].0.key()) == self.entries()[i].1,
    {
        let k = self.entries()[i].0.key();
        assert(self.contains_abs(k));
        let j = self.index_of_abs(k);
        if i < j {
            assert(self.entries()[i].0.key() != self.entries()[j].0.key());
        } else if j < i {
            assert(self.entries()[j].0.key() != self.entries()[i].0.key());
        }
    }

    /// An empty map.
    pub fn new() -> (r: Self)
        ensures
            r.entries() == Seq::<(K, V)>::empty(),
            r.wf(),
    {
        OrderedMap { pairs: Vec::new() }
    }

    /// The number of entries.
    pub fn len(&self) -> (r: usize)
        ensures
            r == self.entries().len(),
    {
        self.pairs.len()
    }

    /// Finds the position of the entry whose key equals `k`.
    pub fn index_of(&self, k: &K) -> (r: Option<usize>)
        requires
            self.wf(),
        ensures
            match r {
                Some(i) => {
                    &&& i < self.entries().len()
                    &&& self.entries()[i as int].0.key() == k.key()
                    &&& self.contains_abs(k.key())
                    &&& self.index_of_abs(k.key()) == i
                },
                None => !self.contains_abs(k.key()),
            },
    {
        let n = self.pairs.len();
        let mut i: usize = 0;
        while i < n
            invariant
                self.wf(),
                n == self.entries().len(),
                i <= n,
                forall|j: int| 0 <= j < i ==> (#[trigger] self.entries()[j]).0.key() != k.key(),
            decreases n - i,
        {
            if self.pairs[i].0.eq_key(k) {
                proof {
                    self.lemma_index_unique(i as int);
                }
                return Some(i);
            }
            i = i + 1;
        }
        None
    }

    /// Whether the map holds an entry for `k`.
    pub fn contains_key(&self, k: &K) -> (r: bool)
        requires
            self.wf(),
        ensures
            r == self.contains_abs(k.key()),
    {
        self.index_of(k).is_some()
    }

    /// The key at position `i`.
    pub fn key_at(&self, i: usize) -> (r: &K)
        requires
            i < self.entries().len(),
        ensures
            *r == self.entries()[i as int].0,
    {
        &self.pairs[i].0
    }

    /// The value at position `i`.
    pub fn value_at(&self, i: usize) -> (r: &V)
        requires
            i < self.entries().len(),
        ensures
            *r == self.entries()[i as int].1,
    {
        &self.pairs[i].1
    }

    /// A borrow of the value stored under `k`, if any.
    pub fn get_ref(&self, k: &K) -> (r: Option<&V>)
        requires
            self.wf(),
        ensures
            match r {
                Some(v) => self.contains_abs(k.key()) && *v == self.at_abs(k.key()),
                None => !self.contains_abs(k.key()),
            },
    {
        match self.index_of(k) {
            Some(i) => Some(&self.pairs[i].1),
            None => None,
        }
    }

    /// Replaces the value at position `i`, keeping the key and the order.
    pub fn set_value_at(&mut self, i: usize, v: V)
        requires
            old(self).wf(),
            i < old(self).entries().len(),
        ensures
            final(self).wf(),
            final(self).entries() == old(self).entries().update(
                i as int,
                (old(self).entries()[i as int].0, v),
            ),
            final(self).contains_abs(old(self).entries()[i as int].0.key()),
            final(self).at_abs(old(self).entries()[i as int].0.key()) == v,
            forall|k: <K as EqKey>::Abs| final(self).contains_abs(k) == old(self).contains_abs(k),
            forall|k: <K as EqKey>::Abs|
                old(self).contains_abs(k) && k != old(self).entries()[i as int].0.key()
                    ==> final(self).at_abs(k) == old(self).at_abs(k),
    {
        let p = &mut self.pairs[i];
        p.1 = v;
        proof {
            assert(self.entries() =~= old(self).entries().update(
                i as int,
                (old(self).entries()[i as int].0, v),
            ));
            assert forall|j: int, l: int| 0 <= j < l < self.entries().len() implies (
            #[trigger] self.entries()[j]).0.key() != (#[trigger] self.entries()[l]).0.key() by {
                assert(self.entries()[j].0 == old(self).entries()[j].0);
                assert(self.entries()[l].0 == old(self).entries()[l].0);
            }
            self.lemma_index_unique(i as int);
            assert forall|k: <K as EqKey>::Abs|
                self.contains_abs(k) == old(self).contains_abs(k) by {
                if self.contains_abs(k) {
                    let j = self.index_of_abs(k);
                    assert(old(self).entries()[j].0.key() == k);
                }
                if old(self).contains_abs(k) {
                    let j = old(self).index_of_abs(k);
                    assert(self.entries()[j].0.key() == k);
                }
            }
            assert forall|k: <K as EqKey>::Abs|
                old(self).contains_abs(k) && k != old(self).entries()[i as int].0.key() implies
                self.at_abs(k) == old(self).at_abs(k) by {
                let j = old(self).index_of_abs(k);
                assert(old(self).entries()[j].0.key() == k);
                assert(self.entries()[j].0.key() == k);
                self.lemma_index_unique(j);
                old(self).lemma_index_unique(j);
            }
        }
    }

    /// Appends an entry whose key is not yet present.
    pub fn push_new(&mut self, k: K, v: V)
        requires
            old(self).wf(),
            !old(self).contains_abs(k.key()),
        ensures
            final(self).wf(),
            final(self).entries() == old(self).entries().push((k, v)),
            final(self).contains_abs(k.key()),
            final(self).at_abs(k.key()) == v,
            forall|q: <K as EqKey>::Abs|
                q != k.key() ==> final(self).contains_abs(q) == old(self).contains_abs(q),
            forall|q: <K as EqKey>::Abs|
                old(self).contains_abs(q) && q != k.key() ==> final(self).at_abs(q) == old(
                    self,
                ).at_abs(q),
    {
        let ghost kk = k.key();
        self.pairs.push((k, v));
        proof {
            let n = old(self).entries().len() as int;
            assert forall|i: int, j: int| 0 <= i < j < self.entries().len() implies (
            #[trigger] self.entries()[i]).0.key() != (#[trigger] self.entries()[j]).0.key() by {
                if j < n {
                    assert(old(self).entries()[i].0.key() != old(self).entries()[j].0.key());
                } else {
                    assert(self.entries()[j].0.key() == kk);
                    assert(old(self).entries()[i].0.key() != kk);
                }
            }
            self.lemma_index_unique(n);
            assert forall|q: <K as EqKey>::Abs|
                q != kk implies self.contains_abs(q) == old(self).contains_abs(q) by {
                if self.contains_abs(q) {
                    let j = self.index_of_abs(q);
                    assert(j < n);
                    assert(old(self).entries()[j].0.key() == q);
                }
                if old(self).contains_abs(q) {
                    let j = old(self).index_of_abs(q);
                    assert(self.entries()[j].0.key() == q);
                }
            }
            assert forall|q: <K as EqKey>::Abs|
                old(self).contains_abs(q) && q != kk implies self.at_abs(q) == old(self).at_abs(
                    q,
                ) by {
                let j = old(self).index_of_abs(q);
                assert(self.entries()[j].0.key() == q);
                self.lemma_index_unique(j);
                old(self).lemma_index_unique(j);
            }
        }
    }

    /// Inserts `v` under `k`: replaces the value in place when the key is
    /// present, else appends a new entry.
    pub fn insert_entry(&mut self, k: K, v: V)
        requires
            old(self).wf(),
        ensures
            final(self).wf(),
            final(self).contains_abs(k.key()),
            final(self).at_abs(k.key()) == v,
            forall|q: <K as EqKey>::Abs|
                q != k.key() ==> final(self).contains_abs(q) == old(self).contains_abs(q),
            forall|q: <K as EqKey>::Abs|
                old(self).contains_abs(q) && q != k.key() ==> final(self).at_abs(q) == old(
                    self,
                ).at_abs(q),
            old(self).contains_abs(k.key()) ==> final(self).entries() == old(
                self,
            ).entries().update(
                old(self).index_of_abs(k.key()),
                (old(self).entries()[old(self).index_of_abs(k.key())].0, v),
            ),
            !old(self).contains_abs(k.key()) ==> final(self).entries() == old(
                self,
            ).entries().push((k, v)),
    {
        match self.index_of(&k) {
            Some(i) => {
                self.set_value_at(i, v);
            },
            None => {
                self.push_new(k, v);
            },
        }
    }

    /// Removes the entry under `k`, keeping the order of the others; returns
    /// the removed value.
    pub fn remove_entry(&mut self, k: &K) -> (r: Option<V>)
        requires
            old(self).wf(),
        ensures
            final(self).wf(),
            !final(self).contains_abs(k.key()),
            match r {
                Some(v) => {
                    &&& old(self).contains_abs(k.key())
                    &&& v == old(self).at_abs(k.key())
                    &&& final(self).entries() == old(self).entries().remove(
                        old(self).index_of_abs(k.key()),
                    )
                },
                None => {
                    &&& !old(self).contains_abs(k.key())
                    &&& final(self).entries() == old(self).entries()
                },
            },
            forall|q: <K as EqKey>::Abs|
                q != k.key() ==> final(self).contains_abs(q) == old(self).contains_abs(q),
            forall|q: <K as EqKey>::Abs|
                old(self).contains_abs(q) && q != k.key() ==> final(self).at_abs(q) == old(
                    self,
                ).at_abs(q),
    {
        match self.index_of(k) {
            Some(i) => {
                let pair = self.pairs.remove(i);
                proof {
                    let n = old(self).entries().len() as int;
                    assert forall|a: int, b: int| 0 <= a < b < self.entries().len() implies (
                    #[trigger] self.entries()[a]).0.key() != (
                    #[trigger] self.entries()[b]).0.key() by {
                        let oa: int = if a < i { a } else { a + 1 };
                        let ob: int = if b < i { b } else { b + 1 };
                        assert(self.entries()[a] == old(self).entries()[oa]);
                        assert(self.entries()[b] == old(self).entries()[ob]);
                    }
                    assert forall|q: <K as EqKey>::Abs|
                        self.contains_abs(q) implies old(self).contains_abs(q) && q != k.key() by {
                        let j = self.index_of_abs(q);
                        let oj: int = if j < i { j } else { j + 1 };
                        assert(self.entries()[j] == old(self).entries()[oj]);
                        assert(old(self).entries()[oj].0.key() == q);
                        if q == k.key() {
                            old(self).lemma_index_unique(oj);
                        }
                    }
                    assert forall|q: <K as EqKey>::Abs|
                        old(self).contains_abs(q) && q != k.key() implies self.contains_abs(q)
                            && self.at_abs(q) == old(self).at_abs(q) by {
                        let oj = old(self).index_of_abs(q);
                        assert(old(self).entries()[oj].0.key() == q);
                        old(self).lemma_index_unique(oj);
                        if oj != i {
                            let j: int = if oj < i { oj } else { oj - 1 };
                            assert(self.entries()[j] == old(self).entries()[oj]);
                            assert(self.contains_abs(q));
                            self.lemma_index_unique(j);
                        } else {
                            assert(old(self).entries()[i as int].0.key() == k.key());
                            assert(false);
                        }
                    }
                }
                Some(pair.1)
            },
            None => None,
        }
    }


    /// A mutable borrow of the value at position `i`; the entry's key and
    /// the order of entries are untouched.
    pub fn value_at_mut(&mut self, i: usize) -> (r: &mut V)
        requires
            i < old(self).entries().len(),
        ensures
            *r == old(self).entries()[i as int].1,
            final(self).entries() == old(self).entries().update(
                i as int,
                (old(self).entries()[i as int].0, *final(r)),
            ),
    {
        let entry = &mut self.pairs[i];
        &mut entry.1
    }

    /// After a value-only update at position `i`, membership is unchanged and
    /// only that entry's value differs.
    pub proof fn lemma_value_update(pre: Self, post: Self, i: int)
        requires
            pre.wf(),
            0 <= i < pre.entries().len(),
            post.entries() == pre.entries().update(i, (pre.entries()[i].0, post.entries()[i].1)),
        ensures
            post.wf(),
            forall|q: <K as EqKey>::Abs| post.contains_abs(q) == pre.contains_abs(q),
            post.contains_abs(pre.entries()[i].0.key()),
            post.index_of_abs(pre.entries()[i].0.key()) == i,
            post.at_abs(pre.entries()[i].0.key()) == post.entries()[i].1,
            forall|q: <K as EqKey>::Abs|
                pre.contains_abs(q) && q != pre.entries()[i].0.key() ==> post.at_abs(q)
                    == pre.at_abs(q),
    {
        assert forall|a: int, b: int| 0 <= a < b < post.entries().len() implies (
        #[trigger] post.entries()[a]).0.key() != (#[trigger] post.entries()[b]).0.key() by {
            assert(post.entries()[a].0 == pre.entries()[a].0);
            assert(post.entries()[b].0 == pre.entries()[b].0);
        }
        post.lemma_index_unique(i);
        assert forall|q: <K as EqKey>::Abs| post.contains_abs(q) == pre.contains_abs(q) by {
            if post.contains_abs(q) {
                let j = post.index_of_abs(q);
                assert(pre.entries()[j].0.key() == q);
            }
            if pre.contains_abs(q) {
                let j = pre.index_of_abs(q);
                assert(post.entries()[j].0.key() == q);
            }
        }
        assert forall|q: <K as EqKey>::Abs|
            pre.contains_abs(q) && q != pre.entries()[i].0.key() implies post.at_abs(q)
            == pre.at_abs(q) by {
            let j = pre.index_of_abs(q);
            assert(pre.entries()[j].0.key() == q);
            assert(post.entries()[j].0.key() == q);
            post.lemma_index_unique(j);
            pre.lemma_index_unique(j);
        }
    }

    /// Consumes the map, handing back its entries in order.
    pub fn into_pairs(self) -> (r: Vec<(K, V)>)
        ensures
            r@ == self.entries(),
    {
        self.pairs
    }
}

/// A map from numeric entry keys to values, kept sorted by key: the model of
/// one keyed collection, whose scans run in key order.
pub struct SortedU64Map<V> {
    pub pairs: Vec<(u64, V)>,
}

impl<V> SortedU64Map<V> {
    /// The entries, in increasing key order.
    pub open spec fn entries(&self) -> Seq<(u64, V)> {
        self.pairs@
    }

    /// Keys are strictly increasing.
    pub open spec fn wf(&self) -> bool {
        forall|i: int, j: int|
            0 <= i < j < self.entries().len() ==> (#[trigger] self.entries()[i]).0 < (
            #[trigger] self.entries()[j]).0
    }

    /// Whether some entry has key `k`.
    pub open spec fn has_key(&self, k: u64) -> bool {
        exists|i: int| 0 <= i < self.entries().len() && (#[trigger] self.entries()[i]).0 == k
    }

    /// The position of the entry with key `k` (meaningful only when
    /// `has_key(k)` holds).
    pub open spec fn key_index(&self, k: u64) -> int {
        choose|i: int| 0 <= i < self.entries().len() && (#[trigger] self.entries()[i]).0 == k
    }

    /// The value under key `k` (meaningful only when `has_key(k)` holds).
    pub open spec fn value_of(&self, k: u64) -> V {
        self.entries()[self.key_index(k)].1
    }

    /// In a well-formed map, an entry's position is determined by its key.
    pub proof fn lemma_key_index(&self, i: int)
        requires
            self.wf(),
            0 <= i < self.entries().len(),
        ensures
            self.has_key(self.entries()[i].0),
            self.key_index(self.entries()[i].0) == i,
            self.value_of(self.entries()[i].0) == self.entries()[i].1,
    {
        let k = self.entries()[i].0;
        assert(self.has_key(k));
        let j = self.key_index(k);
        if i < j {
            assert(self.entries()[i].0 < self.entries()[j].0);
        } else if j < i {
            assert(self.entries()[j].0 < self.entries()[i].0);
        }
    }

    /// An empty map.
    pub fn new() -> (r: Self)
        ensures
            r.entries() == Seq::<(u64, V)>::empty(),
            r.wf(),
    {
        SortedU64Map { pairs: Vec::new() }
    }

    /// The number of entries.
    pub fn len(&self) -> (r: usize)
        ensures
            r == self.entries().len(),
    {
        self.pairs.len()
    }

    /// Finds the position of the first entry whose key is not below `k`.
    fn lower_bound(&self, k: u64) -> (r: usize)
        requires
            self.wf(),
        ensures
            r <= self.entries().len(),
            forall|j: int| 0 <= j < r ==> (#[trigger] self.entries()[j]).0 < k,
            r < self.entries().len() ==> self.entries()[r as int].0 >= k,
    {
        let n = self.pairs.len();
        let mut i: usize = 0;
        while i < n && self.pairs[i].0 < k
            invariant
                self.wf(),
                n == self.entries().len(),
                i <= n,
                forall|j: int| 0 <= j < i ==> (#[trigger] self.entries()[j]).0 < k,
            decreases n - i,
        {
            i = i + 1;
        }
        i
    }

    /// Finds the position of the entry with key `k`.
    pub fn index_of_key(&self, k: u64) -> (r: Option<usize>)
        requires
            self.wf(),
        ensures
            match r {
                Some(i) => {
                    &&& i < self.entries().len()
                    &&& self.entries()[i as int].0 == k
                    &&& self.has_key(k)
                    &&& self.key_index(k) == i
                },
                None => !self.has_key(k),
            },
    {
        let i = self.lower_bound(k);
        if i < self.pairs.len() && self.pairs[i].0 == k {
            proof {
                self.lemma_key_index(i as int);
            }
            Some(i)
        } else {
            proof {
                if self.has_key(k) {
                    let j = self.key_index(k);
                    if j < i as int {
                        assert(self.entries()[j].0 < k);
                    } else if i < self.entries().len() {
                        if (i as int) < j {
                            assert(self.entries()[i as int].0 < self.entries()[j].0);
                        }
                    }
                }
            }
            None
        }
    }

    /// A borrow of the value under key `k`, if any.
    pub fn get_ref(&self, k: u64) -> (r: Option<&V>)
        requires
            self.wf(),
        ensures
            match r {
                Some(v) => self.has_key(k) && *v == self.value_of(k),
                None => !self.has_key(k),
            },
    {
        match self.index_of_key(k) {
            Some(i) => Some(&self.pairs[i].1),
            None => None,
        }
    }

    /// The entry at position `i`.
    pub fn entry_at(&self, i: usize) -> (r: &(u64, V))
        requires
            i < self.entries().len(),
        ensures
            *r == self.entries()[i as int],
    {
        &self.pairs[i]
    }

    /// Inserts `v` under key `k`: replaces the value in place when the key is
    /// present, else splices a new entry in key order.
    pub fn insert(&mut self, k: u64, v: V)
        requires
            old(self).wf(),
        ensures
            final(self).wf(),
            final(self).has_key(k),
            final(self).value_of(k) == v,
            forall|q: u64| q != k ==> final(self).has_key(q) == old(self).has_key(q),
            forall|q: u64|
                old(self).has_key(q) && q != k ==> final(self).value_of(q) == old(self).value_of(
                    q,
                ),
            final(self).entries().len() == old(self).entries().len() + (
            if old(self).has_key(k) {
                0int
            } else {
                1int
            }),
    {
        let i = self.lower_bound(k);
        let n = self.pairs.len();
        if i < n && self.pairs[i].0 == k {
            proof {
                self.lemma_key_index(i as int);
            }
            let p = &mut self.pairs[i];
            p.1 = v;
            proof {
                let s0 = old(self).entries();
                let s1 = self.entries();
                assert(s1 == s0.update(i as int, (k, v)));
                assert forall|a: int, b: int| 0 <= a < b < s1.len() implies (
                #[trigger] s1[a]).0 < (#[trigger] s1[b]).0 by {
                    assert(s1[a].0 == s0[a].0);
                    assert(s1[b].0 == s0[b].0);
                }
                self.lemma_key_index(i as int);
                assert forall|q: u64| q != k implies self.has_key(q) == old(self).has_key(q) by {
                    if self.has_key(q) {
                        let j = self.key_index(q);
                        assert(s0[j].0 == q);
                    }
                    if old(self).has_key(q) {
                        let j = old(self).key_index(q);
                        assert(s1[j].0 == q);
                    }
                }
                assert forall|q: u64|
                    old(self).has_key(q) && q != k implies self.value_of(q) == old(
                    self,
                ).value_of(q) by {
                    let j = old(self).key_index(q);
                    assert(s0[j].0 == q);
                    assert(s1[j].0 == q);
                    self.lemma_key_index(j);
                    old(self).lemma_key_index(j);
                }
            }
        } else {
            proof {
                if i < n {
                    assert(self.entries()[i as int].0 > k);
                }
                if old(self).has_key(k) {
                    let j = old(self).key_index(k);
                    if j < i as int {
                        assert(old(self).entries()[j].0 < k);
                    } else if (i as int) < j {
                        assert(old(self).entries()[i as int].0 < old(self).entries()[j].0);
                    }
                    assert(false);
                }
            }
            self.pairs.insert(i, (k, v));
            proof {
                let s0 = old(self).entries();
                let s1 = self.entries();
                assert(s1 == s0.insert(i as int, (k, v)));
                assert forall|a: int, b: int| 0 <= a < b < s1.len() implies (
                #[trigger] s1[a]).0 < (#[trigger] s1[b]).0 by {
                    let oa: int = if a < i { a } else { a - 1 };
                    let ob: int = if b < i { b } else { b - 1 };
                    if a == i {
                        assert(s1[b] == s0[ob]);
                        assert(s0[ob].0 >= k);
                        if ob == i {
                            assert(s0[ob].0 > k);
                        } else {
                            assert(s0[i as int].0 > k || i as int >= s0.len());
                            assert(s0[ob].0 > k);
                        }
                    } else if b == i {
                        assert(s1[a] == s0[oa]);
                        assert(s0[oa].0 < k);
                    } else {
                        assert(s1[a] == s0[oa]);
                        assert(s1[b] == s0[ob]);
                    }
                }
                let ii = i as int;
                assert(s1[ii] == (k, v));
                self.lemma_key_index(ii);
                assert forall|q: u64| q != k implies self.has_key(q) == old(self).has_key(q) by {
                    if self.has_key(q) {
                        let j = self.key_index(q);
                        let oj: int = if j < ii { j } else { j - 1 };
                        assert(s1[j] == s0[oj]);
                    }
                    if old(self).has_key(q) {
                        let j = old(self).key_index(q);
                        let nj: int = if j < ii { j } else { j + 1 };
                        assert(s1[nj] == s0[j]);
                    }
                }
                assert forall|q: u64|
                    old(self).has_key(q) && q != k implies self.has_key(q) && self.value_of(q)
                    == old(self).value_of(q) by {
                    let j = old(self).key_index(q);
                    assert(s0[j].0 == q);
                    let nj: int = if j < ii { j } else { j + 1 };
                    assert(s1[nj] == s0[j]);
                    self.lemma_key_index(nj);
                    old(self).lemma_key_index(j);
                }
            }
        }
    }

    /// Removes the entry under key `k`; returns the removed value.
    pub fn remove(&mut self, k: u64) -> (r: Option<V>)
        requires
            old(self).wf(),
        ensures
            final(self).wf(),
            !final(self).has_key(k),
            match r {
                Some(v) => {
                    &&& old(self).has_key(k)
                    &&& v == old(self).value_of(k)
                    &&& final(self).entries() == old(self).entries().remove(
                        old(self).key_index(k),
                    )
                },
                None => {
                    &&& !old(self).has_key(k)
                    &&& final(self).entries() == old(self).entries()
                },
            },
            forall|q: u64| q != k ==> final(self).has_key(q) == old(self).has_key(q),
            forall|q: u64|
                old(self).has_key(q) && q != k ==> final(self).value_of(q) == old(self).value_of(
                    q,
                ),
    {
        match self.index_of_key(k) {
            Some(i) => {
                let pair = self.pairs.remove(i);
                proof {
                    let s0 = old(self).entries();
                    let s1 = self.entries();
                    let ii = i as int;
                    assert(s1 == s0.remove(ii));
                    assert forall|a: int, b: int| 0 <= a < b < s1.len() implies (
                    #[trigger] s1[a]).0 < (#[trigger] s1[b]).0 by {
                        let oa: int = if a < ii { a } else { a + 1 };
                        let ob: int = if b < ii { b } else { b + 1 };
                        assert(s1[a] == s0[oa]);
                        assert(s1[b] == s0[ob]);
                    }
                    assert forall|q: u64| self.has_key(q) implies old(self).has_key(q) && q
                        != k by {
                        let j = self.key_index(q);
                        let oj: int = if j < ii { j } else { j + 1 };
                        assert(s1[j] == s0[oj]);
                        if q == k {
                            assert(s0[oj].0 == k);
                            assert(s0[ii].0 == k);
                            if oj < ii {
                                assert(s0[oj].0 < s0[ii].0);
                            } else {
                                assert(s0[ii].0 < s0[oj].0);
                            }
                        }
                    }
                    assert forall|q: u64|
                        old(self).has_key(q) && q != k implies self.has_key(q) && self.value_of(
                        q,
                    ) == old(self).value_of(q) by {
                        let j = old(self).key_index(q);
                        assert(s0[j].0 == q);
                        old(self).lemma_key_index(j);
                        if j != ii {
                            let nj: int = if j < ii { j } else { j - 1 };
                            assert(s1[nj] == s0[j]);
                            self.lemma_key_index(nj);
                        } else {
                            assert(s0[ii].0 == k);
                            assert(false);
                        }
                    }
                }
                Some(pair.1)
            },
            None => None,
        }
    }
}

impl<V> SortedU64Map<V> {
    /// A strictly increasing sequence of present keys cannot sit below its
    /// own position: the `i`-th such key lives at index `i` or later.
    pub proof fn lemma_subseq_index(&self, keys: Seq<u64>, i: int)
        requires
            self.wf(),
            forall|a: int, b: int| 0 <= a < b < keys.len() ==> keys[a] < keys[b],
            forall|t: int| 0 <= t < keys.len() ==> #[trigger] self.has_key(keys[t]),
            0 <= i < keys.len(),
        ensures
            self.key_index(keys[i]) >= i,
        decreases i,
    {
        assert(self.has_key(keys[i]));
        let ki = self.key_index(keys[i]);
        assert(0 <= ki < self.entries().len() && self.entries()[ki].0 == keys[i]);
        if i > 0 {
            self.lemma_subseq_index(keys, i - 1);
            assert(self.has_key(keys[i - 1]));
            let kp = self.key_index(keys[i - 1]);
            assert(0 <= kp < self.entries().len() && self.entries()[kp].0 == keys[i - 1]);
            assert(keys[i - 1] < keys[i]);
            if ki <= kp {
                if ki < kp {
                    assert(self.entries()[ki].0 < self.entries()[kp].0);
                }
                assert(false);
            }
        }
    }
}

} // verus!
