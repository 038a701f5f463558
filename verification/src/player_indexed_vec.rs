//! A vector indexed by seat.

use vstd::prelude::*;
use vstd::std_specs::iter::IteratorSpec;

use crate::domain::PlayerIndex;

verus! {

/// One value per seat, indexed by `PlayerIndex`.
pub struct PlayerIndexedVec<T> {
    values: Vec<T>,
}

impl<T> View for PlayerIndexedVec<T> {
    type V = Seq<T>;

    closed spec fn view(&self) -> Seq<T> {
        self.values@
    }
}

impl<T> PlayerIndexedVec<T> {
    /// No seats.
    pub fn new() -> (r: Self)
        ensures
            r@ == Seq::<T>::empty(),
    {
        PlayerIndexedVec { values: Vec::new() }
    }

    /// `len` seats, each holding `T`'s default value.
    pub fn with_len(len: usize) -> (r: Self)
        where
            T: Default,
        ensures
            r@.len() == len,
            forall|i: int| 0 <= i < len ==> call_ensures(T::default, (), #[trigger] r@[i]),
    {
        let mut v: Vec<T> = Vec::new();
        let mut i: usize = 0;
        while i < len
            invariant
                i <= len,
                v@.len() == i,
                forall|j: int| 0 <= j < i ==> call_ensures(T::default, (), #[trigger] v@[j]),
            decreases len - i,
        {
            v.push(T::default());
            i = i + 1;
        }
        PlayerIndexedVec { values: v }
    }

    /// Four seats holding the given values in order.
    pub fn from4(v1: T, v2: T, v3: T, v4: T) -> (r: Self)
        ensures
            r@ == seq![v1, v2, v3, v4],
    {
        let r = PlayerIndexedVec { values: vec![v1, v2, v3, v4] };
        assert(r@ =~= seq![v1, v2, v3, v4]);
        r
    }

    /// Six seats holding the given values in order.
    pub fn from6(v1: T, v2: T, v3: T, v4: T, v5: T, v6: T) -> (r: Self)
        ensures
            r@ == seq![v1, v2, v3, v4, v5, v6],
    {
        let r = PlayerIndexedVec { values: vec![v1, v2, v3, v4, v5, v6] };
        assert(r@ =~= seq![v1, v2, v3, v4, v5, v6]);
        r
    }

    /// Number of seats.
    pub fn len(&self) -> (r: usize)
        ensures
            r == self@.len(),
    {
        self.values.len()
    }

    /// Whether there are no seats.
    pub fn is_empty(&self) -> (r: bool)
        ensures
            r == (self@.len() == 0),
    {
        self.values.len() == 0
    }

    /// Adds a seat at the end.
    pub fn push(&mut self, value: T)
        ensures
            final(self)@ == old(self)@.push(value),
    {
        self.values.push(value);
    }

    /// The values, in seat order.
    pub fn as_slice(&self) -> (r: &[T])
        ensures
            r@ == self@,
    {
        self.values.as_slice()
    }

    /// The values, in seat order, one at a time.
    pub fn iter(&self) -> (r: std::slice::Iter<'_, T>)
        ensures
            r.remaining() == self@.as_ref(),
    {
        broadcast use vstd::std_specs::slice::axiom_spec_slice_iter;

        self.values.as_slice().iter()
    }

    /// The seats before `mid` and those from `mid` on, each for changing.
    pub fn split_at_mut(&mut self, mid: PlayerIndex) -> (r: (&mut [T], &mut [T]))
        requires
            mid.spec_value() <= old(self)@.len(),
        ensures
            r.0@ == old(self)@.subrange(0, mid.spec_value() as int),
            r.1@ == old(self)@.subrange(mid.spec_value() as int, old(self)@.len() as int),
            final(self)@ == final(r.0)@ + final(r.1)@,
    {
        self.values.as_mut_slice().split_at_mut(mid.value())
    }

    /// The value of seat `index`.
    pub fn get(&self, index: PlayerIndex) -> (r: &T)
        requires
            index.spec_value() < self@.len(),
        ensures
            *r == self@[index.spec_value() as int],
    {
        &self.values[index.value()]
    }

    /// The value of seat `index`, for changing it.
    pub fn get_mut(&mut self, index: PlayerIndex) -> (r: &mut T)
        requires
            index.spec_value() < old(self)@.len(),
        ensures
            *r == old(self)@[index.spec_value() as int],
            final(self)@ == old(self)@.update(index.spec_value() as int, *final(r)),
    {
        &mut self.values[index.value()]
    }
}

} // verus!
