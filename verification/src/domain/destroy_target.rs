//! A building the warlord may destroy.

use vstd::prelude::*;

use crate::domain::card::Card;
use crate::domain::player_offset::PlayerOffset;

verus! {

/// A building, named by its owner's offset from the warlord and its card.
#[derive(Clone, Copy, Debug, PartialEq, Eq, Structural)]
pub struct DestroyTarget {
    pub player_offset: PlayerOffset,
    pub card: Card,
}

} // verus!
