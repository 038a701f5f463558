//! What the magician does with a turn.

use vstd::prelude::*;

use crate::domain::card::Card;
use crate::domain::player_offset::PlayerOffset;

verus! {

/// The magician's choice.
#[derive(Clone, Debug)]
pub enum MagicianSkill {
    /// Swap hands with the player at this offset.
    Swap(PlayerOffset),
    /// Discard these cards from the hand and draw as many.
    Replace(Vec<Card>),
    /// Do nothing.
    Pass,
}

} // verus!
