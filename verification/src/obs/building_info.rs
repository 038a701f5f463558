//! A building as shown to the players.

use vstd::prelude::*;

use crate::domain::{Card, Color};

verus! {

/// A building with its colour, fee, score and the warlord's price.
#[derive(Clone, Copy, Debug)]
pub struct BuildingInfo {
    pub card: Card,
    pub color: Color,
    pub fee: u32,
    pub score: u32,
    pub destroy_fee: Option<u32>,
}

/// The description of building `card` that costs `destroy_fee` to destroy.
pub open spec fn building_info_of(card: Card, destroy_fee: Option<u32>) -> BuildingInfo {
    BuildingInfo {
        card,
        color: card.spec_color(),
        fee: card.spec_fee(),
        score: card.spec_score(),
        destroy_fee,
    }
}

impl BuildingInfo {
    /// Describes building `card`.
    pub fn new(card: Card, destroy_fee: Option<u32>) -> (r: BuildingInfo)
        ensures
            r == building_info_of(card, destroy_fee),
    {
        BuildingInfo { card, color: card.color(), fee: card.fee(), score: card.score(), destroy_fee }
    }
}

} // verus!
