//! The bonus points of a city, item by item.

use vstd::prelude::*;

use crate::player::{has_all_colors, Player, PlayerState};

verus! {

/// Bonus points of a city: all colours, eight buildings, first to eight.
#[derive(Clone, Copy, Debug)]
pub struct BuildingExtraScore {
    pub all_colors: u32,
    pub eight_buildings: u32,
    pub first_eight_buildings: u32,
}

/// The bonus points of player `p`.
pub open spec fn extra_score_of(p: PlayerState) -> BuildingExtraScore {
    BuildingExtraScore {
        all_colors: if has_all_colors(p.buildings) {
            3
        } else {
            0
        },
        eight_buildings: if p.buildings.len() == 8 {
            2
        } else {
            0
        },
        first_eight_buildings: if p.first_8 {
            2
        } else {
            0
        },
    }
}

impl BuildingExtraScore {
    /// The bonus points of `player`.
    pub fn new(player: &Player) -> (r: BuildingExtraScore)
        ensures
            r == extra_score_of(player@),
    {
        BuildingExtraScore {
            all_colors: if player.has_all_colors() {
                3
            } else {
                0
            },
            eight_buildings: if player.buildings_len() == 8 {
                2
            } else {
                0
            },
            first_eight_buildings: if player.is_first_8_buildings() {
                2
            } else {
                0
            },
        }
    }
}

} // verus!
