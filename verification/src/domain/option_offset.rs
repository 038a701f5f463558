//! An offset that may be absent.

use vstd::prelude::*;

use crate::domain::player_offset::PlayerOffset;

verus! {

/// An offset or nothing; nothing is kept as the value `0b1111`.
#[derive(Clone, Copy, Debug, PartialEq, Eq, Structural)]
pub struct OptionOffset {
    value: usize,
}

/// The value that stands for "no offset".
pub const NONE_VALUE: usize = 0b1111;

impl OptionOffset {
    pub closed spec fn spec_value(self) -> usize {
        self.value
    }

    /// The offset held, if any.
    pub open spec fn spec_get(self) -> Option<usize> {
        if self.spec_value() == NONE_VALUE {
            None
        } else {
            Some(self.spec_value())
        }
    }

    /// No offset.
    pub closed spec fn none_spec() -> OptionOffset {
        OptionOffset { value: NONE_VALUE }
    }

    /// No offset.
    pub fn none() -> (r: OptionOffset)
        ensures
            r == OptionOffset::none_spec(),
            r.spec_get() == None::<usize>,
    {
        OptionOffset { value: NONE_VALUE }
    }

    /// The given offset.
    pub fn from_offset(offset: PlayerOffset) -> (r: OptionOffset)
        ensures
            r.spec_value() == offset.spec_value(),
    {
        OptionOffset { value: offset.value() }
    }

    /// Rebuilds the value from its optional number: `None` gives no offset.
    pub fn from_option(value: Option<usize>) -> (r: OptionOffset)
        ensures
            value is None ==> r.spec_get() is None,
            value matches Some(v) ==> r.spec_value() == v,
    {
        match value {
            Some(v) => OptionOffset { value: v },
            None => Self::none(),
        }
    }

    /// The offset held, if any.
    pub fn get(&self) -> (r: Option<usize>)
        ensures
            r == self.spec_get(),
    {
        if self.value == NONE_VALUE {
            None
        } else {
            Some(self.value)
        }
    }
}

} // verus!
