//! What a player knows about the current round.

use vstd::prelude::*;

use crate::domain::{OptionRoleOffsetPair, PlayerOffset, PlayerOffsetSet, Role, RoleSet};

verus! {

/// The public facts of the round as seen by one player.
#[derive(Clone, Copy, Debug)]
pub struct RoundInfo {
    pub round: u32,
    pub crown: PlayerOffset,
    pub roles_public_dropped: RoleSet,
    pub players_choose_role_before: PlayerOffsetSet,
    pub players_choose_role_after: PlayerOffsetSet,
    pub roles_chosen_before: RoleSet,
    pub roles_chosen_after: Option<RoleSet>,
    pub killed: OptionRoleOffsetPair,
    pub stolen: OptionRoleOffsetPair,
}

impl RoundInfo {
    /// The round facts at the start of a round: nothing dropped, chosen,
    /// killed or robbed.
    pub open spec fn fresh(self, round: u32, crown: PlayerOffset) -> bool {
        &&& self.round == round
        &&& self.crown == crown
        &&& self.roles_public_dropped@ == Set::<Role>::empty()
        &&& self.players_choose_role_before@ == Set::<int>::empty()
        &&& self.players_choose_role_after@ == Set::<int>::empty()
        &&& self.roles_chosen_before@ == Set::<Role>::empty()
        &&& self.roles_chosen_after is None
        &&& self.killed == OptionRoleOffsetPair::none_spec()
        &&& self.stolen == OptionRoleOffsetPair::none_spec()
    }

    /// Round facts for round `round` with the crown at offset `crown`.
    pub fn new(round: u32, crown: PlayerOffset) -> (r: RoundInfo)
        ensures
            r.fresh(round, crown),
    {
        RoundInfo {
            round,
            crown,
            roles_public_dropped: RoleSet::empty(),
            players_choose_role_before: PlayerOffsetSet::empty(),
            players_choose_role_after: PlayerOffsetSet::empty(),
            roles_chosen_before: RoleSet::empty(),
            roles_chosen_after: None,
            killed: OptionRoleOffsetPair::none(),
            stolen: OptionRoleOffsetPair::none(),
        }
    }

    /// The round number.
    pub fn round(&self) -> (r: u32)
        ensures
            r == self.round,
    {
        self.round
    }

    pub fn set_crown(&mut self, crown: PlayerOffset)
        ensures
            *final(self) == (RoundInfo { crown, ..*old(self) }),
    {
        self.crown = crown;
    }

    /// Records the offset of the killed player.
    pub fn set_killed_offset(&mut self, offset: PlayerOffset)
        ensures
            final(self).killed.spec_offset().spec_value() == offset.spec_value(),
            final(self).killed.spec_role() == old(self).killed.spec_role(),
            *final(self) == (RoundInfo { killed: final(self).killed, ..*old(self) }),
    {
        self.killed.set_offset(offset);
    }

    /// Records the offset of the robbed player.
    pub fn set_stolen_offset(&mut self, offset: PlayerOffset)
        ensures
            final(self).stolen.spec_offset().spec_value() == offset.spec_value(),
            final(self).stolen.spec_role() == old(self).stolen.spec_role(),
            *final(self) == (RoundInfo { stolen: final(self).stolen, ..*old(self) }),
    {
        self.stolen.set_offset(offset);
    }

    pub fn set_round(&mut self, round: u32)
        ensures
            *final(self) == (RoundInfo { round, ..*old(self) }),
    {
        self.round = round;
    }

    pub fn set_roles_public_dropped(&mut self, roles: RoleSet)
        ensures
            *final(self) == (RoundInfo { roles_public_dropped: roles, ..*old(self) }),
    {
        self.roles_public_dropped = roles;
    }

    pub fn set_players_choose_role_before(&mut self, offsets: PlayerOffsetSet)
        ensures
            *final(self) == (RoundInfo { players_choose_role_before: offsets, ..*old(self) }),
    {
        self.players_choose_role_before = offsets;
    }

    pub fn set_players_choose_role_after(&mut self, offsets: PlayerOffsetSet)
        ensures
            *final(self) == (RoundInfo { players_choose_role_after: offsets, ..*old(self) }),
    {
        self.players_choose_role_after = offsets;
    }

    pub fn set_roles_chosen_before(&mut self, roles: RoleSet)
        ensures
            *final(self) == (RoundInfo { roles_chosen_before: roles, ..*old(self) }),
    {
        self.roles_chosen_before = roles;
    }

    pub fn set_roles_chosen_after(&mut self, roles: RoleSet)
        ensures
            *final(self) == (RoundInfo { roles_chosen_after: Some(roles), ..*old(self) }),
    {
        self.roles_chosen_after = Some(roles);
    }

    /// Records the killed role.
    pub fn set_killed_role(&mut self, role: Role)
        ensures
            final(self).killed.spec_role().spec_role() == Some(role),
            final(self).killed.spec_offset() == old(self).killed.spec_offset(),
            *final(self) == (RoundInfo { killed: final(self).killed, ..*old(self) }),
    {
        self.killed.set_role(role);
    }

    /// Records the robbed role.
    pub fn set_stolen_role(&mut self, role: Role)
        ensures
            final(self).stolen.spec_role().spec_role() == Some(role),
            final(self).stolen.spec_offset() == old(self).stolen.spec_offset(),
            *final(self) == (RoundInfo { stolen: final(self).stolen, ..*old(self) }),
    {
        self.stolen.set_role(role);
    }

    /// Forgets the facts of the round; the round number and crown stay.
    pub fn reset(&mut self)
        ensures
            final(self).fresh(old(self).round, old(self).crown),
    {
        self.roles_public_dropped = RoleSet::empty();
        self.players_choose_role_before = PlayerOffsetSet::empty();
        self.players_choose_role_after = PlayerOffsetSet::empty();
        self.roles_chosen_before = RoleSet::empty();
        self.roles_chosen_after = None;
        self.killed = OptionRoleOffsetPair::none();
        self.stolen = OptionRoleOffsetPair::none();
    }
}

} // verus!
