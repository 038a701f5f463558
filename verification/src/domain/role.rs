//! The eight roles, in the order in which they act.

use vstd::prelude::*;

verus! {

/// A role (character) that a player picks for one round. Roles act in
/// the order in which they are declared here.
#[derive(Clone, Copy, Debug, PartialEq, Eq, Structural)]
pub enum Role {
    Assassin,
    Thief,
    Magician,
    King,
    Bishop,
    Merchant,
    Architect,
    Warlord,
}

/// The roles in acting order.
pub open spec fn spec_population() -> Seq<Role> {
    seq![
        Role::Assassin,
        Role::Thief,
        Role::Magician,
        Role::King,
        Role::Bishop,
        Role::Merchant,
        Role::Architect,
        Role::Warlord,
    ]
}

/// The role at a given place in the acting order.
pub open spec fn role_at(i: int) -> Role
    recommends
        0 <= i < 8,
{
    spec_population()[i]
}

impl Role {
    /// Place of the role in the acting order.
    pub open spec fn spec_index(self) -> int {
        match self {
            Role::Assassin => 0,
            Role::Thief => 1,
            Role::Magician => 2,
            Role::King => 3,
            Role::Bishop => 4,
            Role::Merchant => 5,
            Role::Architect => 6,
            Role::Warlord => 7,
        }
    }

    /// The bit that stands for the role in a role set: `1 << index`.
    pub open spec fn spec_bit(self) -> isize {
        match self {
            Role::Assassin => 1,
            Role::Thief => 2,
            Role::Magician => 4,
            Role::King => 8,
            Role::Bishop => 16,
            Role::Merchant => 32,
            Role::Architect => 64,
            Role::Warlord => 128,
        }
    }

    pub open spec fn spec_name(self) -> Seq<char> {
        match self {
            Role::Assassin => "刺客"@,
            Role::Thief => "小偷"@,
            Role::Magician => "魔术师"@,
            Role::King => "国王"@,
            Role::Bishop => "主教"@,
            Role::Merchant => "商人"@,
            Role::Architect => "建筑师"@,
            Role::Warlord => "军阀"@,
        }
    }

    /// The bit of the role in a role set.
    pub fn bit(self) -> (r: isize)
        ensures
            r == self.spec_bit(),
    {
        match self {
            Role::Assassin => 1,
            Role::Thief => 2,
            Role::Magician => 4,
            Role::King => 8,
            Role::Bishop => 16,
            Role::Merchant => 32,
            Role::Architect => 64,
            Role::Warlord => 128,
        }
    }

    /// The role whose bit is `value`.
    pub open spec fn from_bit_spec(value: isize) -> Role {
        if value == 1 {
            Role::Assassin
        } else if value == 2 {
            Role::Thief
        } else if value == 4 {
            Role::Magician
        } else if value == 8 {
            Role::King
        } else if value == 16 {
            Role::Bishop
        } else if value == 32 {
            Role::Merchant
        } else if value == 64 {
            Role::Architect
        } else {
            Role::Warlord
        }
    }

    /// The role whose bit is `value`; `value` must be one of the eight bits.
    pub fn from_bit(value: isize) -> (r: Role)
        requires
            is_role_bit(value),
        ensures
            r.spec_bit() == value,
            r == Role::from_bit_spec(value),
    {
        if value == 1 {
            Role::Assassin
        } else if value == 2 {
            Role::Thief
        } else if value == 4 {
            Role::Magician
        } else if value == 8 {
            Role::King
        } else if value == 16 {
            Role::Bishop
        } else if value == 32 {
            Role::Merchant
        } else if value == 64 {
            Role::Architect
        } else {
            Role::Warlord
        }
    }

    /// All roles, in acting order.
    pub fn population() -> (r: [Role; 8])
        ensures
            r@ == spec_population(),
    {
        let r = [
            Role::Assassin,
            Role::Thief,
            Role::Magician,
            Role::King,
            Role::Bishop,
            Role::Merchant,
            Role::Architect,
            Role::Warlord,
        ];
        assert(r@ =~= spec_population());
        r
    }

    /// Display name of the role.
    pub fn name(&self) -> (r: &'static str)
        ensures
            r@ == self.spec_name(),
    {
        match self {
            Role::Assassin => "刺客",
            Role::Thief => "小偷",
            Role::Magician => "魔术师",
            Role::King => "国王",
            Role::Bishop => "主教",
            Role::Merchant => "商人",
            Role::Architect => "建筑师",
            Role::Warlord => "军阀",
        }
    }
}

/// `value` is the bit of one of the eight roles.
pub open spec fn is_role_bit(value: isize) -> bool {
    value == 1 || value == 2 || value == 4 || value == 8 || value == 16 || value == 32 || value
        == 64 || value == 128
}

/// Every role's bit is a role bit, and distinct roles have distinct bits.
pub proof fn lemma_role_bits()
    ensures
        forall|r: Role| #[trigger] is_role_bit(r.spec_bit()),
        forall|r: Role, s: Role| r.spec_bit() == s.spec_bit() ==> r == s,
        forall|r: Role| 0 <= #[trigger] r.spec_index() < 8 && role_at(r.spec_index()) == r,
{
}

} // verus!
