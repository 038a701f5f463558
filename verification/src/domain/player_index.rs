//! Absolute seat numbers.

use vstd::prelude::*;

verus! {

/// The seat of a player at the table, counted from 0.
#[derive(Clone, Copy, Debug, PartialEq, Eq, PartialOrd, Ord, Structural)]
pub struct PlayerIndex {
    value: usize,
}

impl PlayerIndex {
    pub closed spec fn spec_value(self) -> usize {
        self.value
    }

    /// The seat with number `value`.
    pub closed spec fn from_usize_spec(value: usize) -> PlayerIndex {
        PlayerIndex { value }
    }

    /// The seat with number `value`.
    pub fn from_usize(value: usize) -> (r: PlayerIndex)
        ensures
            r.spec_value() == value,
            r == PlayerIndex::from_usize_spec(value),
    {
        PlayerIndex { value }
    }

    /// The seat number.
    pub fn value(&self) -> (r: usize)
        ensures
            r == self.spec_value(),
    {
        self.value
    }

    /// The seat that no player has.
    pub closed spec fn invalid_spec() -> PlayerIndex {
        PlayerIndex { value: usize::MAX }
    }

    /// A seat that no player has: the largest `usize`.
    pub fn invalid() -> (r: PlayerIndex)
        ensures
            r.spec_value() == usize::MAX,
            r == PlayerIndex::invalid_spec(),
    {
        PlayerIndex { value: usize::MAX }
    }

    /// How many seats `self` lies after `other`; `other` must not lie after `self`.
    pub fn minus(self, other: PlayerIndex) -> (r: usize)
        requires
            self.spec_value() >= other.spec_value(),
        ensures
            r == self.spec_value() - other.spec_value(),
    {
        self.value - other.value
    }

    /// The seat `n` places after `self`, without wrapping around the table.
    pub fn plus(self, n: usize) -> (r: PlayerIndex)
        requires
            self.spec_value() + n <= usize::MAX,
        ensures
            r.spec_value() == self.spec_value() + n,
    {
        Self::from_usize(self.value + n)
    }

    /// The seat built from a number has that number.
    pub proof fn lemma_from_usize_spec(value: usize)
        ensures
            PlayerIndex::from_usize_spec(value).spec_value() == value,
    {
    }

    /// Two seats are the same exactly when their numbers are.
    pub proof fn lemma_eq(self, other: PlayerIndex)
        ensures
            (self == other) <==> (self.spec_value() == other.spec_value()),
    {
    }
}

} // verus!
