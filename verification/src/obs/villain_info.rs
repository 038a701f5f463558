//! What a player sees of another player.

use vstd::prelude::*;

use crate::domain::Role;
use crate::obs::common_player_info::CommonPlayerInfo;
use crate::player::{Player, PlayerState};

verus! {

/// Another player's public part and the size of its hand.
#[derive(Clone, Debug)]
pub struct VillainInfo {
    pub common: CommonPlayerInfo,
    pub num_cards: u32,
}

impl VillainInfo {
    /// Shows player `p`: public part and hand size.
    pub open spec fn shows(self, p: PlayerState) -> bool {
        &&& self.common.shows(p)
        &&& self.num_cards == p.cards.len() as u32
    }

    /// Gold, city, bonus points and hand size are those of `other`.
    pub open spec fn shows_same(self, other: VillainInfo) -> bool {
        &&& self.common.gold == other.common.gold
        &&& self.common.buildings@ == other.common.buildings@
        &&& self.common.building_extra_score == other.common.building_extra_score
        &&& self.num_cards == other.num_cards
    }

    /// The view of `player` from another seat, role not yet revealed.
    pub fn from_player(player: &Player) -> (r: VillainInfo)
        ensures
            r.shows(player@),
            r.common.camp == player@.camp,
            r.common.role is None,
    {
        VillainInfo {
            common: CommonPlayerInfo::from_player(player),
            num_cards: player.cards_len() as u32,
        }
    }

    /// Reveals the player's role; it must not be revealed yet.
    pub fn set_role(&mut self, role: Role)
        requires
            old(self).common.role is None,
        ensures
            final(self).common.role == Some(role),
            final(self).common.camp == old(self).common.camp,
            final(self).shows_same(*old(self)),
    {
        self.common.set_role(role);
    }

    /// Hides the player's role again; it must be revealed.
    pub fn unset_role(&mut self)
        requires
            old(self).common.role is Some,
        ensures
            final(self).common.role is None,
            final(self).common.camp == old(self).common.camp,
            final(self).shows_same(*old(self)),
    {
        self.common.unset_role();
    }

    /// Refreshes everything but camp and role from `player`.
    pub fn update_info(&mut self, player: &Player)
        ensures
            final(self).shows(player@),
            final(self).common.camp == old(self).common.camp,
            final(self).common.role == old(self).common.role,
    {
        self.common.update_info(player);
        self.num_cards = player.cards_len() as u32;
    }
}

} // verus!
