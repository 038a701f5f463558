//! What a player sees of itself.

use vstd::prelude::*;

use crate::deck::copy_cards;
use crate::domain::{Camp, Card, Role};
use crate::obs::common_player_info::CommonPlayerInfo;
use crate::player::{Player, PlayerState};

verus! {

/// The observer's own public part and its hand.
#[derive(Clone, Debug)]
pub struct HeroInfo {
    pub common: CommonPlayerInfo,
    pub cards: Vec<Card>,
}

impl HeroInfo {
    /// Shows player `p`: public part and hand.
    pub open spec fn shows(self, p: PlayerState) -> bool {
        &&& self.common.shows(p)
        &&& self.cards@ == p.cards
    }

    /// The observer's view of `player`, role not yet revealed.
    pub fn from_player(player: &Player) -> (r: HeroInfo)
        ensures
            r.shows(player@),
            r.common.camp == player@.camp,
            r.common.role is None,
    {
        HeroInfo { common: CommonPlayerInfo::from_player(player), cards: copy_cards(player.cards()) }
    }

    /// Records the observer's role; it must not be recorded yet.
    pub fn set_role(&mut self, role: Role)
        requires
            old(self).common.role is None,
        ensures
            final(self).common.role == Some(role),
            final(self).common.camp == old(self).common.camp,
            final(self).shows_same(*old(self)),
    {
        self.common.set_role(role);
    }

    /// Forgets the observer's role; it must be recorded.
    pub fn unset_role(&mut self)
        requires
            old(self).common.role is Some,
        ensures
            final(self).common.role is None,
            final(self).common.camp == old(self).common.camp,
            final(self).shows_same(*old(self)),
    {
        self.common.unset_role();
    }

    /// Gold, city, bonus points and hand are those of `other`.
    pub open spec fn shows_same(self, other: HeroInfo) -> bool {
        &&& self.common.gold == other.common.gold
        &&& self.common.buildings@ == other.common.buildings@
        &&& self.common.building_extra_score == other.common.building_extra_score
        &&& self.cards@ == other.cards@
    }

    /// Refreshes everything but camp and role from `actor`.
    pub fn update_info(&mut self, actor: &Player)
        ensures
            final(self).shows(actor@),
            final(self).common.camp == old(self).common.camp,
            final(self).common.role == old(self).common.role,
    {
        self.common.update_info(actor);
        self.cards = copy_cards(actor.cards());
    }

    /// Number of cards in the observer's hand.
    pub fn num_cards(&self) -> (r: usize)
        ensures
            r == self.cards@.len(),
    {
        self.cards.len()
    }

    /// The card at place `index` of the observer's hand.
    pub fn card_at(&self, index: usize) -> (r: Card)
        requires
            index < self.cards@.len(),
        ensures
            r == self.cards@[index as int],
    {
        self.cards[index]
    }

    /// The observer's camp.
    pub fn camp(&self) -> (r: Camp)
        ensures
            r == self.common.camp,
    {
        self.common.camp()
    }
}

} // verus!
