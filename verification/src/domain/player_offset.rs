//! Seats counted relative to an observer.

use vstd::prelude::*;

use crate::domain::player_index::PlayerIndex;

verus! {

/// A seat seen from an observer: 0 is the observer, 1 the next player,
/// and so on around the table.
#[derive(Clone, Copy, Debug, PartialEq, Eq, Structural)]
pub struct PlayerOffset {
    value: usize,
}

/// Offset of seat `player` seen from seat `observer` at a table of `n`.
pub open spec fn spec_offset(player: int, observer: int, n: int) -> int {
    if player >= observer {
        player - observer
    } else {
        player + n - observer
    }
}

/// Seat that lies `offset` places after `observer` at a table of `n`.
pub open spec fn spec_seat(offset: int, observer: int, n: int) -> int {
    if observer + offset >= n {
        observer + offset - n
    } else {
        observer + offset
    }
}

/// Remainder of a number that lies within one table size of zero.
proof fn lemma_small_mod(x: int, n: int)
    requires
        0 < n,
        -n < x < 2 * n,
    ensures
        x % n == if x < 0 {
            x + n
        } else if x < n {
            x
        } else {
            x - n
        },
{
    if x < 0 {
        vstd::arithmetic::div_mod::lemma_small_mod((x + n) as nat, n as nat);
        vstd::arithmetic::div_mod::lemma_mod_add_multiples_vanish(x, n);
    } else if x < n {
        vstd::arithmetic::div_mod::lemma_small_mod(x as nat, n as nat);
    } else {
        vstd::arithmetic::div_mod::lemma_small_mod((x - n) as nat, n as nat);
        vstd::arithmetic::div_mod::lemma_mod_add_multiples_vanish(x - n, n);
    }
}

impl PlayerOffset {
    pub closed spec fn spec_value(self) -> usize {
        self.value
    }

    /// The observer itself.
    pub fn zero() -> (r: PlayerOffset)
        ensures
            r.spec_value() == 0,
    {
        PlayerOffset { value: 0 }
    }

    /// The offset with value `value`.
    pub fn from_usize(value: usize) -> (r: PlayerOffset)
        ensures
            r.spec_value() == value,
    {
        PlayerOffset { value }
    }

    /// Offset of `player` seen from `observer` at a table of `n` players.
    pub fn from_index(player: PlayerIndex, observer: PlayerIndex, n: usize) -> (r: PlayerOffset)
        requires
            player.spec_value() < observer.spec_value() ==> observer.spec_value()
                <= player.spec_value() + n <= usize::MAX,
        ensures
            r.spec_value() == spec_offset(
                player.spec_value() as int,
                observer.spec_value() as int,
                n as int,
            ),
            player.spec_value() < n && observer.spec_value() < n ==> r.spec_value() == (
            player.spec_value() - observer.spec_value()) % (n as int),
    {
        proof {
            if player.spec_value() < n && observer.spec_value() < n {
                lemma_small_mod(player.spec_value() - observer.spec_value(), n as int);
            }
        }
        if player.value() >= observer.value() {
            PlayerOffset { value: player.minus(observer) }
        } else {
            PlayerOffset { value: player.plus(n).minus(observer) }
        }
    }

    /// The seat `self` places after `observer` at a table of `n` players.
    pub fn to_index(self, observer: PlayerIndex, n: usize) -> (r: PlayerIndex)
        requires
            observer.spec_value() + self.spec_value() <= usize::MAX,
        ensures
            r.spec_value() == spec_seat(self.spec_value() as int, observer.spec_value() as int, n as int),
            self.spec_value() < n && observer.spec_value() < n ==> r.spec_value() == (
            observer.spec_value() + self.spec_value()) % (n as int),
    {
        proof {
            if self.spec_value() < n && observer.spec_value() < n {
                lemma_small_mod(observer.spec_value() + self.spec_value(), n as int);
            }
        }
        let value = observer.value() + self.value();
        if value >= n {
            PlayerIndex::from_usize(value - n)
        } else {
            PlayerIndex::from_usize(value)
        }
    }

    /// Two offsets are the same exactly when their values are.
    pub proof fn lemma_eq(self, other: PlayerOffset)
        ensures
            (self == other) <==> (self.spec_value() == other.spec_value()),
    {
    }

    /// Whether the offset is the observer itself.
    pub fn is_zero(&self) -> (r: bool)
        ensures
            r == (self.spec_value() == 0),
    {
        self.value == 0
    }

    /// The offset's value.
    pub fn value(&self) -> (r: usize)
        ensures
            r == self.spec_value(),
    {
        self.value
    }
}

/// Turning a seat into an offset and back gives the seat again, and the
/// offset lies below the table size.
pub proof fn lemma_offset_round_trip(player: int, observer: int, n: int)
    requires
        0 <= player < n,
        0 <= observer < n,
    ensures
        0 <= spec_offset(player, observer, n) < n,
        spec_seat(spec_offset(player, observer, n), observer, n) == player,
{
}

/// Turning an offset into a seat and back gives the offset again, and the
/// seat lies below the table size.
pub proof fn lemma_seat_round_trip(offset: int, observer: int, n: int)
    requires
        0 <= offset < n,
        0 <= observer < n,
    ensures
        0 <= spec_seat(offset, observer, n) < n,
        spec_offset(spec_seat(offset, observer, n), observer, n) == offset,
{
}

/// The observer sees itself at offset 0, and distinct seats at distinct offsets.
pub proof fn lemma_offset_injective(p: int, q: int, observer: int, n: int)
    requires
        0 <= p < n,
        0 <= q < n,
        0 <= observer < n,
    ensures
        spec_offset(observer, observer, n) == 0,
        spec_offset(p, observer, n) == spec_offset(q, observer, n) ==> p == q,
{
}

} // verus!
