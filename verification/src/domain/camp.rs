//! The two teams.

use vstd::prelude::*;

verus! {

/// One of the two teams, 楚 and 汉.
#[derive(Clone, Copy, Debug, PartialEq, Eq, Structural)]
pub enum Camp {
    Chu,
    Han,
}

impl Camp {
    /// Index of the camp in per-camp tables: 楚 is 0, 汉 is 1.
    pub open spec fn spec_index(self) -> nat {
        match self {
            Camp::Chu => 0,
            Camp::Han => 1,
        }
    }

    pub open spec fn spec_name(self) -> Seq<char> {
        match self {
            Camp::Chu => "楚"@,
            Camp::Han => "汉"@,
        }
    }

    /// Index of the camp in per-camp tables.
    pub fn index(&self) -> (r: usize)
        ensures
            r == self.spec_index(),
            r < 2,
    {
        match self {
            Camp::Chu => 0,
            Camp::Han => 1,
        }
    }

    /// Display name of the camp.
    pub fn name(&self) -> (r: &'static str)
        ensures
            r@ == self.spec_name(),
    {
        match self {
            Camp::Chu => "楚",
            Camp::Han => "汉",
        }
    }
}

} // verus!
