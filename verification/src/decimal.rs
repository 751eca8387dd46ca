//! A signed fixed-point amount: the unit of all resource arithmetic.
//!
//! An amount is a count of indivisible sub-units. All arithmetic here is
//! checked or guarded: the verified callers prove absence of overflow.

use vstd::prelude::*;

verus! {

/// A signed amount of a fungible resource, as a count of sub-units.
#[derive(Debug, Clone, Copy, PartialEq, Eq, Structural, Hash)]
pub struct Decimal {
    pub units: i128,
}

impl Decimal {
    /// The zero amount.
    pub fn zero() -> (r: Decimal)
        ensures
            r.units == 0,
    {
        Decimal { units: 0 }
    }

    /// An amount holding the given count of sub-units.
    pub fn from_units(units: i128) -> (r: Decimal)
        ensures
            r.units == units,
    {
        Decimal { units }
    }

    /// Whether this amount is zero.
    pub fn is_zero(&self) -> (r: bool)
        ensures
            r == (self.units == 0),
    {
        self.units == 0
    }

    /// Whether this amount is negative.
    pub fn is_negative(&self) -> (r: bool)
        ensures
            r == (self.units < 0),
    {
        self.units < 0
    }

    /// The smaller of two amounts.
    pub fn min(a: Decimal, b: Decimal) -> (r: Decimal)
        ensures
            r.units == if a.units <= b.units {
                a.units
            } else {
                b.units
            },
    {
        if a.units <= b.units {
            a
        } else {
            b
        }
    }

    /// The sum, where the caller shows it fits.
    pub fn add(self, other: Decimal) -> (r: Decimal)
        requires
            i128::MIN <= self.units + other.units <= i128::MAX,
        ensures
            r.units == self.units + other.units,
    {
        Decimal { units: self.units + other.units }
    }

    /// The sum, or `None` on overflow.
    pub fn checked_add(self, other: Decimal) -> (r: Option<Decimal>)
        ensures
            match r {
                Some(s) => s.units == self.units + other.units,
                None => self.units + other.units > i128::MAX || self.units + other.units
                    < i128::MIN,
            },
    {
        match self.units.checked_add(other.units) {
            Some(u) => Some(Decimal { units: u }),
            None => None,
        }
    }

    /// The difference, where the caller shows it fits.
    pub fn sub(self, other: Decimal) -> (r: Decimal)
        requires
            i128::MIN <= self.units - other.units <= i128::MAX,
        ensures
            r.units == self.units - other.units,
    {
        Decimal { units: self.units - other.units }
    }

    /// Whether this amount is strictly smaller than the other.
    pub fn lt(&self, other: &Decimal) -> (r: bool)
        ensures
            r == (self.units < other.units),
    {
        self.units < other.units
    }

    /// Whether this amount is at most the other.
    pub fn le(&self, other: &Decimal) -> (r: bool)
        ensures
            r == (self.units <= other.units),
    {
        self.units <= other.units
    }
}

} // verus!
