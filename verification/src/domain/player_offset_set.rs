//! A set of seats seen from an observer.

use vstd::prelude::*;

use crate::domain::player_offset::PlayerOffset;

verus! {

/// A set of offsets, kept as a bit mask: bit `i` stands for offset `i`.
#[derive(Clone, Copy, Debug)]
pub struct PlayerOffsetSet {
    value: u32,
}

impl View for PlayerOffsetSet {
    type V = Set<int>;

    closed spec fn view(&self) -> Set<int> {
        Set::new(|i: int| 0 <= i < 32 && (self.value >> (i as u32)) & 1 == 1)
    }
}

impl PlayerOffsetSet {
    pub closed spec fn spec_value(self) -> u32 {
        self.value
    }

    /// The empty set.
    pub fn empty() -> (r: PlayerOffsetSet)
        ensures
            r@ == Set::<int>::empty(),
            r.spec_value() == 0,
    {
        let r = PlayerOffsetSet { value: 0 };
        assert forall|i: int| !r@.contains(i) by {
            if 0 <= i < 32 {
                let k = i as u32;
                assert((0u32 >> k) & 1 == 0) by (bit_vector);
            }
        }
        assert(r@ =~= Set::<int>::empty());
        r
    }

    /// The set with `offset` added; offsets must lie below 32.
    pub fn with(self, offset: PlayerOffset) -> (r: PlayerOffsetSet)
        requires
            offset.spec_value() < 32,
        ensures
            r@ == self@.insert(offset.spec_value() as int),
    {
        let k = offset.value() as u32;
        let v = self.value;
        let r = PlayerOffsetSet { value: v | (1u32 << k) };
        assert forall|i: int| #[trigger] r@.contains(i) == self@.insert(k as int).contains(i) by {
            if 0 <= i < 32 {
                let j = i as u32;
                assert(k < 32 && j < 32 ==> (((v | (1u32 << k)) >> j) & 1 == 1) == ((v >> j) & 1
                    == 1 || j == k)) by (bit_vector);
            }
        }
        assert(r@ =~= self@.insert(k as int));
        r
    }

    /// The bit mask.
    pub fn value(&self) -> (r: u32)
        ensures
            r == self.spec_value(),
    {
        self.value
    }

    /// The set whose bit mask is `value`.
    pub fn from_value(value: u32) -> (r: PlayerOffsetSet)
        ensures
            r.spec_value() == value,
    {
        PlayerOffsetSet { value }
    }
}

} // verus!
