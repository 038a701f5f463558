//! A role together with the seat that had it.

use vstd::prelude::*;

use crate::domain::option_offset::OptionOffset;
use crate::domain::option_role::OptionRole;
use crate::domain::player_offset::PlayerOffset;
use crate::domain::role::Role;

verus! {

/// A role and the offset of the player who had it; either may be unknown.
#[derive(Clone, Copy, Debug, PartialEq, Eq, Structural)]
pub struct OptionRoleOffsetPair {
    offset: OptionOffset,
    role: OptionRole,
}

impl OptionRoleOffsetPair {
    pub closed spec fn spec_offset(self) -> OptionOffset {
        self.offset
    }

    pub closed spec fn spec_role(self) -> OptionRole {
        self.role
    }

    /// Neither role nor offset known.
    pub closed spec fn none_spec() -> OptionRoleOffsetPair {
        OptionRoleOffsetPair { offset: OptionOffset::none_spec(), role: OptionRole::Empty }
    }

    /// Neither role nor offset known.
    pub fn none() -> (r: OptionRoleOffsetPair)
        ensures
            r == OptionRoleOffsetPair::none_spec(),
            r.spec_offset().spec_get() is None,
            r.spec_role() == OptionRole::Empty,
    {
        OptionRoleOffsetPair { offset: OptionOffset::none(), role: OptionRole::Empty }
    }

    /// Records the offset; the role stays.
    pub fn set_offset(&mut self, offset: PlayerOffset)
        ensures
            final(self).spec_offset().spec_value() == offset.spec_value(),
            final(self).spec_role() == old(self).spec_role(),
    {
        self.offset = OptionOffset::from_offset(offset);
    }

    /// Records the role; the offset stays.
    pub fn set_role(&mut self, role: Role)
        ensures
            final(self).spec_role().spec_role() == Some(role),
            final(self).spec_offset() == old(self).spec_offset(),
    {
        self.role = OptionRole::from_role(role);
    }

    /// The offset part.
    pub fn offset(&self) -> (r: OptionOffset)
        ensures
            r == self.spec_offset(),
    {
        self.offset
    }

    /// The role part.
    pub fn role(&self) -> (r: OptionRole)
        ensures
            r == self.spec_role(),
    {
        self.role
    }

    /// The pair with the given parts.
    pub fn from_parts(offset: OptionOffset, role: OptionRole) -> (r: OptionRoleOffsetPair)
        ensures
            r.spec_offset() == offset,
            r.spec_role() == role,
    {
        OptionRoleOffsetPair { offset, role }
    }
}

} // verus!
