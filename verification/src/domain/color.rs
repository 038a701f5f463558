//! The five district colours.

use vstd::prelude::*;

verus! {

/// Colour of a district card.
#[derive(Clone, Copy, Debug, PartialEq, Eq, Structural)]
pub enum Color {
    Green,
    Yellow,
    Blue,
    Red,
    Purple,
}

impl Color {
    /// Position of the colour, from green to purple.
    pub open spec fn spec_index(self) -> nat {
        match self {
            Color::Green => 0,
            Color::Yellow => 1,
            Color::Blue => 2,
            Color::Red => 3,
            Color::Purple => 4,
        }
    }

    pub open spec fn spec_name(self) -> Seq<char> {
        match self {
            Color::Green => "绿"@,
            Color::Yellow => "黄"@,
            Color::Blue => "蓝"@,
            Color::Red => "红"@,
            Color::Purple => "紫"@,
        }
    }

    /// Position of the colour, from green to purple.
    pub fn index(&self) -> (r: usize)
        ensures
            r == self.spec_index(),
            r < 5,
    {
        match self {
            Color::Green => 0,
            Color::Yellow => 1,
            Color::Blue => 2,
            Color::Red => 3,
            Color::Purple => 4,
        }
    }

    /// Display name of the colour.
    pub fn name(&self) -> (r: &'static str)
        ensures
            r@ == self.spec_name(),
    {
        match self {
            Color::Green => "绿",
            Color::Yellow => "黄",
            Color::Blue => "蓝",
            Color::Red => "红",
            Color::Purple => "紫",
        }
    }
}

} // verus!
