//! What every player may see of a player.

use vstd::prelude::*;

use crate::domain::{Camp, Role};
use crate::obs::building_extra_score::{extra_score_of, BuildingExtraScore};
use crate::obs::building_info::{building_info_of, BuildingInfo};
use crate::player::{destroy_fee, Player, PlayerState};

verus! {

/// The public part of a player: camp, gold, city and, once revealed, role.
#[derive(Clone, Debug)]
pub struct CommonPlayerInfo {
    pub camp: Camp,
    pub gold: u32,
    pub buildings: Vec<BuildingInfo>,
    pub building_extra_score: BuildingExtraScore,
    pub role: Option<Role>,
}

/// The city of `p`, building by building.
pub open spec fn building_infos(p: PlayerState) -> Seq<BuildingInfo> {
    Seq::new(
        p.buildings.len(),
        |i: int| building_info_of(p.buildings[i], destroy_fee(p.role, p.buildings, p.buildings[i])),
    )
}

impl CommonPlayerInfo {
    /// Gold, city and bonus points are those of `p`.
    pub open spec fn shows(self, p: PlayerState) -> bool {
        &&& self.gold == p.gold
        &&& self.buildings@ == building_infos(p)
        &&& self.building_extra_score == extra_score_of(p)
    }

    /// The public part of `player`, with the role not yet revealed.
    pub fn from_player(player: &Player) -> (r: CommonPlayerInfo)
        ensures
            r.shows(player@),
            r.camp == player@.camp,
            r.role is None,
    {
        let mut buildings: Vec<BuildingInfo> = Vec::new();
        let bs = player.buildings();
        let mut i: usize = 0;
        while i < bs.len()
            invariant
                i <= bs.len(),
                bs@ == player@.buildings,
                buildings@ == building_infos(player@).take(i as int),
            decreases bs.len() - i,
        {
            let b = bs[i];
            buildings.push(BuildingInfo::new(b, player.building_destroy_fee(b)));
            i = i + 1;
            assert(buildings@ =~= building_infos(player@).take(i as int));
        }
        assert(building_infos(player@).take(bs.len() as int) =~= building_infos(player@));
        let building_extra_score = BuildingExtraScore::new(player);
        CommonPlayerInfo {
            camp: player.camp(),
            gold: player.gold(),
            buildings,
            building_extra_score,
            role: None,
        }
    }

    /// Reveals the role; it must not have been revealed yet.
    pub fn set_role(&mut self, role: Role)
        requires
            old(self).role is None,
        ensures
            final(self).role == Some(role),
            final(self).camp == old(self).camp,
            final(self).gold == old(self).gold,
            final(self).buildings@ == old(self).buildings@,
            final(self).building_extra_score == old(self).building_extra_score,
    {
        self.role = Some(role);
    }

    /// Hides the role again; it must have been revealed.
    pub fn unset_role(&mut self)
        requires
            old(self).role is Some,
        ensures
            final(self).role is None,
            final(self).camp == old(self).camp,
            final(self).gold == old(self).gold,
            final(self).buildings@ == old(self).buildings@,
            final(self).building_extra_score == old(self).building_extra_score,
    {
        self.role = None;
    }

    /// Refreshes gold, city and bonus points from `player`; camp and role stay.
    pub fn update_info(&mut self, player: &Player)
        ensures
            final(self).shows(player@),
            final(self).camp == old(self).camp,
            final(self).role == old(self).role,
    {
        let fresh = CommonPlayerInfo::from_player(player);
        self.gold = fresh.gold;
        self.buildings = fresh.buildings;
        self.building_extra_score = fresh.building_extra_score;
    }

    /// The camp shown.
    pub fn camp(&self) -> (r: Camp)
        ensures
            r == self.camp,
    {
        self.camp
    }
}

} // verus!
