//! A role slot that may be empty.

use vstd::prelude::*;

use crate::domain::role::Role;

verus! {

/// A role or nothing: which role was killed or robbed this round.
#[derive(Clone, Copy, Debug, PartialEq, Eq, Structural)]
pub enum OptionRole {
    Empty,
    Assassin,
    Thief,
    Magician,
    King,
    Bishop,
    Merchant,
    Architect,
    Warlord,
}

impl OptionRole {
    /// The role held, if any.
    pub open spec fn spec_role(self) -> Option<Role> {
        match self {
            OptionRole::Empty => Option::None,
            OptionRole::Assassin => Some(Role::Assassin),
            OptionRole::Thief => Some(Role::Thief),
            OptionRole::Magician => Some(Role::Magician),
            OptionRole::King => Some(Role::King),
            OptionRole::Bishop => Some(Role::Bishop),
            OptionRole::Merchant => Some(Role::Merchant),
            OptionRole::Architect => Some(Role::Architect),
            OptionRole::Warlord => Some(Role::Warlord),
        }
    }

    /// The slot holding `role`.
    pub fn from_role(role: Role) -> (r: OptionRole)
        ensures
            r.spec_role() == Some(role),
    {
        match role {
            Role::Assassin => OptionRole::Assassin,
            Role::Thief => OptionRole::Thief,
            Role::Magician => OptionRole::Magician,
            Role::King => OptionRole::King,
            Role::Bishop => OptionRole::Bishop,
            Role::Merchant => OptionRole::Merchant,
            Role::Architect => OptionRole::Architect,
            Role::Warlord => OptionRole::Warlord,
        }
    }

    /// Whether the slot holds `role`.
    pub fn is_role(self, role: Role) -> (r: bool)
        ensures
            r == (self.spec_role() == Some(role)),
    {
        match self {
            OptionRole::Empty => false,
            OptionRole::Assassin => role == Role::Assassin,
            OptionRole::Thief => role == Role::Thief,
            OptionRole::Magician => role == Role::Magician,
            OptionRole::King => role == Role::King,
            OptionRole::Bishop => role == Role::Bishop,
            OptionRole::Merchant => role == Role::Merchant,
            OptionRole::Architect => role == Role::Architect,
            OptionRole::Warlord => role == Role::Warlord,
        }
    }

    /// The role held, if any.
    pub fn role(self) -> (r: Option<Role>)
        ensures
            r == self.spec_role(),
    {
        match self {
            OptionRole::Empty => None,
            OptionRole::Assassin => Some(Role::Assassin),
            OptionRole::Thief => Some(Role::Thief),
            OptionRole::Magician => Some(Role::Magician),
            OptionRole::King => Some(Role::King),
            OptionRole::Bishop => Some(Role::Bishop),
            OptionRole::Merchant => Some(Role::Merchant),
            OptionRole::Architect => Some(Role::Architect),
            OptionRole::Warlord => Some(Role::Warlord),
        }
    }
}

} // verus!
