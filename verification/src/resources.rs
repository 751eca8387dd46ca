//! Resource containers: fungible amounts and non-fungible id sets.

use vstd::prelude::*;
use crate::decimal::Decimal;

verus! {

/// The local id of a non-fungible unit within its resource.
pub type NonFungibleLocalId = u64;

/// A set of non-fungible ids, kept sorted and duplicate-free.
#[derive(Debug, Clone, PartialEq, Eq, Hash)]
pub struct IdSet {
    pub elems: Vec<u64>,
}

impl IdSet {
    /// Elements are strictly increasing.
    pub open spec fn wf(&self) -> bool {
        forall|i: int, j: int|
            0 <= i < j < self.elems@.len() ==> #[trigger] self.elems@[i] < #[trigger] self.elems@[j]
    }

    /// Whether `x` is in the set.
    pub open spec fn contains_id(&self, x: u64) -> bool {
        self.elems@.contains(x)
    }

    /// The mathematical set of ids.
    pub open spec fn set(&self) -> Set<u64> {
        self.elems@.to_set()
    }

    /// The empty set.
    pub fn new() -> (r: IdSet)
        ensures
            r.wf(),
            r.elems@ == Seq::<u64>::empty(),
            forall|x: u64| !r.contains_id(x),
    {
        let r = IdSet { elems: Vec::new() };
        proof {
            assert(forall|x: u64| !r.elems@.contains(x));
        }
        r
    }

    /// The number of ids in the set.
    pub fn len(&self) -> (r: usize)
        ensures
            r == self.elems@.len(),
    {
        self.elems.len()
    }

    /// Whether the set is empty.
    pub fn is_empty(&self) -> (r: bool)
        ensures
            r == (self.elems@.len() == 0),
            r ==> forall|x: u64| !self.contains_id(x),
    {
        self.elems.is_empty()
    }

    /// Whether `x` is in the set.
    pub fn contains(&self, x: u64) -> (r: bool)
        ensures
            r == self.contains_id(x),
    {
        let n = self.elems.len();
        let mut i: usize = 0;
        while i < n
            invariant
                n == self.elems@.len(),
                i <= n,
                forall|j: int| 0 <= j < i ==> self.elems@[j] != x,
            decreases n - i,
        {
            if self.elems[i] == x {
                return true;
            }
            i = i + 1;
        }
        proof {
            assert(!self.elems@.contains(x));
        }
        false
    }

    /// Adds `x` to the set (a no-op when already present).
    pub fn insert(&mut self, x: u64)
        requires
            old(self).wf(),
        ensures
            final(self).wf(),
            forall|y: u64|
                #![trigger final(self).contains_id(y)]
                final(self).contains_id(y) <==> (old(self).contains_id(y) || y == x),
    {
        let n = self.elems.len();
        let mut i: usize = 0;
        while i < n && self.elems[i] < x
            invariant
                self == old(self),
                n == self.elems@.len(),
                i <= n,
                forall|j: int| 0 <= j < i ==> self.elems@[j] < x,
            decreases n - i,
        {
            i = i + 1;
        }
        if i < n && self.elems[i] == x {
            proof {
                assert(self.contains_id(x));
            }
            return ;
        }
        proof {
            if i < n {
                assert(self.elems@[i as int] > x);
            }
        }
        self.elems.insert(i, x);
        proof {
            let s0 = old(self).elems@;
            let s1 = self.elems@;
            assert(s1 == s0.insert(i as int, x));
            assert forall|a: int, b: int| 0 <= a < b < s1.len() implies #[trigger] s1[a]
                < #[trigger] s1[b] by {
                let oa: int = if a < i { a } else { a - 1 };
                let ob: int = if b < i { b } else { b - 1 };
                if a == i {
                    assert(s1[b] == s0[ob]);
                } else if b == i {
                    assert(s1[a] == s0[oa]);
                } else {
                    assert(s1[a] == s0[oa]);
                    assert(s1[b] == s0[ob]);
                }
            }
            assert forall|y: u64| final(self).contains_id(y) <==> (old(self).contains_id(y) || y
                == x) by {
                if s1.contains(y) {
                    let j = choose|j: int| 0 <= j < s1.len() && s1[j] == y;
                    if j != i {
                        let oj: int = if j < i { j } else { j - 1 };
                        assert(s0[oj] == y);
                    }
                }
                if s0.contains(y) {
                    let j = choose|j: int| 0 <= j < s0.len() && s0[j] == y;
                    let nj: int = if j < i { j } else { j + 1 };
                    assert(s1[nj] == y);
                }
                assert(s1[i as int] == x);
            }
        }
    }

    /// Removes `x` from the set (a no-op when absent).
    pub fn remove(&mut self, x: u64)
        requires
            old(self).wf(),
        ensures
            final(self).wf(),
            forall|y: u64|
                #![trigger final(self).contains_id(y)]
                final(self).contains_id(y) <==> (old(self).contains_id(y) && y != x),
    {
        let n = self.elems.len();
        let mut i: usize = 0;
        while i < n && self.elems[i] != x
            invariant
                self == old(self),
                n == self.elems@.len(),
                i <= n,
                forall|j: int| 0 <= j < i ==> self.elems@[j] != x,
            decreases n - i,
        {
            i = i + 1;
        }
        if i == n {
            proof {
                assert(!self.contains_id(x));
            }
            return ;
        }
        proof {
            assert(self.elems@[i as int] == x);
        }
        self.elems.remove(i);
        proof {
            let s0 = old(self).elems@;
            let s1 = self.elems@;
            assert(s1 == s0.remove(i as int));
            assert forall|a: int, b: int| 0 <= a < b < s1.len() implies #[trigger] s1[a]
                < #[trigger] s1[b] by {
                let oa: int = if a < i { a } else { a + 1 };
                let ob: int = if b < i { b } else { b + 1 };
                assert(s1[a] == s0[oa]);
                assert(s1[b] == s0[ob]);
            }
            assert forall|y: u64| final(self).contains_id(y) <==> (old(self).contains_id(y) && y
                != x) by {
                if s1.contains(y) {
                    let j = choose|j: int| 0 <= j < s1.len() && s1[j] == y;
                    let oj: int = if j < i { j } else { j + 1 };
                    assert(s0[oj] == y);
                    if y == x {
                        assert(s0[i as int] == x);
                        if oj < i {
                            assert(s0[oj] < s0[i as int]);
                        } else {
                            assert(s0[i as int] < s0[oj]);
                        }
                    }
                }
                if s0.contains(y) && y != x {
                    let j = choose|j: int| 0 <= j < s0.len() && s0[j] == y;
                    if j != i {
                        let nj: int = if j < i { j } else { j - 1 };
                        assert(s1[nj] == y);
                    } else {
                        assert(s0[i as int] == x);
                    }
                }
            }
        }
    }

    /// Adds every id of `other` to this set.
    pub fn extend(&mut self, other: &IdSet)
        requires
            old(self).wf(),
        ensures
            final(self).wf(),
            forall|y: u64|
                #![trigger final(self).contains_id(y)]
                final(self).contains_id(y) <==> (old(self).contains_id(y) || other.contains_id(y)),
    {
        let n = other.elems.len();
        let mut i: usize = 0;
        while i < n
            invariant
                self.wf(),
                n == other.elems@.len(),
                i <= n,
                forall|y: u64|
                    self.contains_id(y) <==> (old(self).contains_id(y) || exists|j: int|
                        0 <= j < i && other.elems@[j] == y),
            decreases n - i,
        {
            self.insert(other.elems[i]);
            i = i + 1;
        }
    }


    /// Decides whether the elements are strictly increasing.
    pub fn is_sorted(&self) -> (r: bool)
        ensures
            r == self.wf(),
    {
        let n = self.elems.len();
        if n == 0 {
            return true;
        }
        let mut i: usize = 0;
        while i < n - 1
            invariant
                n == self.elems@.len(),
                n >= 1,
                i <= n - 1,
                forall|k: int| 0 <= k < i ==> #[trigger] self.elems@[k] < self.elems@[k + 1],
            decreases n - i,
        {
            if self.elems[i] >= self.elems[i + 1] {
                proof {
                    assert(!(self.elems@[i as int] < self.elems@[i + 1]));
                }
                return false;
            }
            i = i + 1;
        }
        proof {
            assert forall|a: int, b: int| 0 <= a < b < self.elems@.len() implies
                #[trigger] self.elems@[a] < #[trigger] self.elems@[b] by {
                lemma_sorted_from_adjacent(self.elems@, a, b);
            }
        }
        true
    }

    /// The ids, in increasing order.
    pub fn to_vec(&self) -> (r: Vec<u64>)
        ensures
            r@ == self.elems@,
    {
        self.elems.clone()
    }
}


/// Adjacent order gives pairwise order.
proof fn lemma_sorted_from_adjacent(s: Seq<u64>, i: int, j: int)
    requires
        forall|k: int| 0 <= k < s.len() - 1 ==> #[trigger] s[k] < s[k + 1],
        0 <= i < j < s.len(),
    ensures
        s[i] < s[j],
    decreases j - i,
{
    if i + 1 < j {
        lemma_sorted_from_adjacent(s, i, j - 1);
        assert(s[j - 1] < s[j]);
    }
}

/// Removes the intersection of `left` and `right` from both, in place,
/// without materialising the intersection itself.
pub fn remove_intersection(left: &mut IdSet, right: &mut IdSet)
    requires
        old(left).wf(),
        old(right).wf(),
    ensures
        final(left).wf(),
        final(right).wf(),
        forall|y: u64|
            #![trigger final(left).contains_id(y)]
            final(left).contains_id(y) <==> (old(left).contains_id(y) && !old(right).contains_id(
                y,
            )),
        forall|y: u64|
            #![trigger final(right).contains_id(y)]
            final(right).contains_id(y) <==> (old(right).contains_id(y) && !old(left).contains_id(
                y,
            )),
{
    let n = left.elems.len();
    let mut kept: Vec<u64> = Vec::new();
    let mut i: usize = 0;
    while i < n
        invariant
            right.wf(),
            old(left).wf(),
            n == old(left).elems@.len(),
            left == old(left),
            i <= n,
            forall|y: u64|
                kept@.contains(y) <==> ((exists|j: int|
                    0 <= j < i && old(left).elems@[j] == y) && !old(right).contains_id(y)),
            forall|a: int, b: int| 0 <= a < b < kept@.len() ==> kept@[a] < kept@[b],
            forall|a: int|
                0 <= a < kept@.len() ==> exists|j: int|
                    0 <= j < i && old(left).elems@[j] == #[trigger] kept@[a],
            forall|y: u64|
                right.contains_id(y) <==> (old(right).contains_id(y) && !(exists|j: int|
                    0 <= j < i && old(left).elems@[j] == y)),
        decreases n - i,
    {
        let ghost kept0 = kept@;
        let ghost right0 = *right;
        let x = left.elems[i];
        proof {
            assert(old(left).elems@[i as int] == x);
            assert forall|j: int| 0 <= j < i implies old(left).elems@[j] != x by {
                assert(old(left).elems@[j] < old(left).elems@[i as int]);
            }
        }
        if right.contains(x) {
            right.remove(x);
            proof {
                assert forall|y: u64|
                    right.contains_id(y) <==> (old(right).contains_id(y) && !(exists|j: int|
                        0 <= j < i + 1 && old(left).elems@[j] == y)) by {
                    if y != x {
                        assert(right.contains_id(y) == right0.contains_id(y));
                        assert((exists|j: int| 0 <= j < i + 1 && old(left).elems@[j] == y)
                            == (exists|j: int| 0 <= j < i && old(left).elems@[j] == y));
                    }
                }
                assert forall|y: u64|
                    kept@.contains(y) <==> ((exists|j: int|
                        0 <= j < i + 1 && old(left).elems@[j] == y) && !old(
                        right,
                    ).contains_id(y)) by {
                    if y == x {
                        assert(right0.contains_id(x));
                        assert(old(right).contains_id(x));
                    } else {
                        assert((exists|j: int| 0 <= j < i + 1 && old(left).elems@[j] == y)
                            == (exists|j: int| 0 <= j < i && old(left).elems@[j] == y));
                    }
                }
            }
        } else {
            proof {
                assert(!right0.contains_id(x));
                assert(!old(right).contains_id(x));
                assert forall|a: int| 0 <= a < kept0.len() implies #[trigger] kept0[a] < x by {
                    let j = choose|j: int| 0 <= j < i && old(left).elems@[j] == kept0[a];
                    assert(old(left).elems@[j] < old(left).elems@[i as int]);
                }
            }
            kept.push(x);
            proof {
                assert(kept@ == kept0.push(x));
                assert forall|y: u64|
                    kept@.contains(y) <==> ((exists|j: int|
                        0 <= j < i + 1 && old(left).elems@[j] == y) && !old(
                        right,
                    ).contains_id(y)) by {
                    if kept@.contains(y) {
                        let a = choose|a: int| 0 <= a < kept@.len() && kept@[a] == y;
                        if a < kept0.len() {
                            assert(kept0[a] == y);
                            assert(kept0.contains(y));
                        } else {
                            assert(y == x);
                        }
                    }
                    if y == x {
                        assert(kept@[kept0.len() as int] == x);
                        assert(kept@.contains(x));
                    } else if (exists|j: int| 0 <= j < i + 1 && old(left).elems@[j] == y) && !old(
                        right,
                    ).contains_id(y) {
                        assert((exists|j: int| 0 <= j < i && old(left).elems@[j] == y));
                        assert(kept0.contains(y));
                        let a = choose|a: int| 0 <= a < kept0.len() && kept0[a] == y;
                        assert(kept@[a] == y);
                    }
                }
                assert forall|a: int, b: int|
                    0 <= a < b < kept@.len() implies kept@[a] < kept@[b] by {
                    if b < kept0.len() {
                        assert(kept0[a] < kept0[b]);
                    } else {
                        assert(kept@[b] == x);
                        assert(kept0[a] < x);
                    }
                }
                assert forall|a: int|
                    0 <= a < kept@.len() implies exists|j: int|
                        0 <= j < i + 1 && old(left).elems@[j] == #[trigger] kept@[a] by {
                    if a < kept0.len() {
                        let j = choose|j: int| 0 <= j < i && old(left).elems@[j] == kept0[a];
                        assert(0 <= j < i + 1 && old(left).elems@[j] == kept@[a]);
                    } else {
                        assert(old(left).elems@[i as int] == kept@[a]);
                    }
                }
                assert forall|y: u64|
                    right.contains_id(y) <==> (old(right).contains_id(y) && !(exists|j: int|
                        0 <= j < i + 1 && old(left).elems@[j] == y)) by {
                    if y != x {
                        assert((exists|j: int| 0 <= j < i + 1 && old(left).elems@[j] == y)
                            == (exists|j: int| 0 <= j < i && old(left).elems@[j] == y));
                    }
                }
            }
        }
        i = i + 1;
    }
    left.elems = kept;
    proof {
        assert forall|y: u64|
            final(left).contains_id(y) <==> (old(left).contains_id(y) && !old(
                right,
            ).contains_id(y)) by {
            if old(left).contains_id(y) {
                let j = choose|j: int| 0 <= j < n && old(left).elems@[j] == y;
                assert(0 <= j < n && old(left).elems@[j] == y);
            }
        }
        assert forall|y: u64|
            final(right).contains_id(y) <==> (old(right).contains_id(y) && !old(
                left,
            ).contains_id(y)) by {
            if old(left).contains_id(y) {
                let j = choose|j: int| 0 <= j < n && old(left).elems@[j] == y;
                assert(0 <= j < n && old(left).elems@[j] == y);
            }
        }
    }
}

/// An error raised by a resource container.
#[derive(Debug, Clone, Copy, PartialEq, Eq, Structural, Hash)]
pub enum ResourceError {
    InsufficientBalance,
    BalanceOverflow,
    NegativeAmountNotAllowed,
}

/// The liquid (freely movable) part of a fungible vault or bucket.
#[derive(Debug, Clone, Copy, PartialEq, Eq, Structural, Hash)]
pub struct LiquidFungibleResource {
    pub amount_units: Decimal,
}

impl LiquidFungibleResource {
    /// A container holding the given amount.
    pub fn new(amount: Decimal) -> (r: LiquidFungibleResource)
        ensures
            r.amount_units == amount,
    {
        LiquidFungibleResource { amount_units: amount }
    }

    /// The held amount.
    pub fn amount(&self) -> (r: Decimal)
        ensures
            r == self.amount_units,
    {
        self.amount_units
    }

    /// Moves the whole content of `other` into this container.
    pub fn put(&mut self, other: LiquidFungibleResource) -> (r: Result<(), ResourceError>)
        ensures
            match r {
                Ok(()) => final(self).amount_units.units == old(self).amount_units.units
                    + other.amount_units.units,
                Err(ResourceError::BalanceOverflow) => {
                    &&& *final(self) == *old(self)
                    &&& (old(self).amount_units.units + other.amount_units.units > i128::MAX || old(
                        self,
                    ).amount_units.units + other.amount_units.units < i128::MIN)
                },
                Err(_) => false,
            },
    {
        match self.amount_units.checked_add(other.amount_units) {
            Some(sum) => {
                self.amount_units = sum;
                Ok(())
            },
            None => Err(ResourceError::BalanceOverflow),
        }
    }

    /// Takes the given amount out, failing when more than is held.
    pub fn take_by_amount(&mut self, amount: Decimal) -> (r: Result<
        LiquidFungibleResource,
        ResourceError,
    >)
        ensures
            match r {
                Ok(taken) => {
                    &&& 0 <= amount.units <= old(self).amount_units.units
                    &&& taken.amount_units == amount
                    &&& final(self).amount_units.units == old(self).amount_units.units
                        - amount.units
                },
                Err(ResourceError::NegativeAmountNotAllowed) => {
                    &&& amount.units < 0
                    &&& *final(self) == *old(self)
                },
                Err(ResourceError::InsufficientBalance) => {
                    &&& amount.units > old(self).amount_units.units
                    &&& *final(self) == *old(self)
                },
                Err(_) => false,
            },
    {
        if amount.is_negative() {
            return Err(ResourceError::NegativeAmountNotAllowed);
        }
        if self.amount_units.lt(&amount) {
            return Err(ResourceError::InsufficientBalance);
        }
        self.amount_units = self.amount_units.sub(amount);
        Ok(LiquidFungibleResource::new(amount))
    }
}

/// The liquid part of a non-fungible vault or bucket.
#[derive(Debug, Clone, PartialEq, Eq, Hash)]
pub struct LiquidNonFungibleResource {
    pub ids: IdSet,
}

impl LiquidNonFungibleResource {
    /// A container holding the given ids.
    pub fn new(ids: IdSet) -> (r: LiquidNonFungibleResource)
        ensures
            r.ids == ids,
    {
        LiquidNonFungibleResource { ids }
    }

    /// A borrow of the held ids.
    pub fn ids(&self) -> (r: &IdSet)
        ensures
            *r == self.ids,
    {
        &self.ids
    }

    /// Moves the whole content of `other` into this container.
    pub fn put(&mut self, other: LiquidNonFungibleResource)
        requires
            old(self).ids.wf(),
        ensures
            final(self).ids.wf(),
            forall|y: u64|
                #![trigger final(self).ids.contains_id(y)]
                final(self).ids.contains_id(y) <==> (old(self).ids.contains_id(y)
                    || other.ids.contains_id(y)),
    {
        self.ids.extend(&other.ids);
        proof {
            assert forall|y: u64|
                self.ids.contains_id(y) <==> (old(self).ids.contains_id(y)
                    || other.ids.contains_id(y)) by {
                assert(self.ids.contains_id(y) <==> (old(self).ids.contains_id(y)
                    || other.ids.contains_id(y)));
            }
        }
    }
}

/// The locked (proof-backing) part of a fungible vault.
#[derive(Debug, Clone, Copy, PartialEq, Eq, Structural, Hash)]
pub struct LockedFungibleResource {
    pub amount_units: Decimal,
}

impl LockedFungibleResource {
    /// The locked amount.
    pub fn amount(&self) -> (r: Decimal)
        ensures
            r == self.amount_units,
    {
        self.amount_units
    }
}

/// The locked (proof-backing) part of a non-fungible vault.
#[derive(Debug, Clone, PartialEq, Eq, Hash)]
pub struct LockedNonFungibleResource {
    pub ids: IdSet,
}

/// The liquid summary of a non-fungible vault, as a unit count.
#[derive(Debug, Clone, Copy, PartialEq, Eq, Structural, Hash)]
pub struct LiquidNonFungibleVault {
    pub amount: Decimal,
}

} // verus!
