//! Identifiers for requests to remote agents.

use vstd::prelude::*;

verus! {

/// A counter that hands out 0, 1, 2, ... in turn. It is deliberately not
/// `Clone`: agents that draw from one counter share it behind a lock, so
/// that no two copies hand out the same identifier.
#[derive(Debug)]
pub struct IdGen {
    data: u32,
}

impl IdGen {
    /// The identifier handed out next.
    pub closed spec fn spec_next(self) -> u32 {
        self.data
    }

    /// A counter that starts at 0.
    pub fn new() -> (r: IdGen)
        ensures
            r.spec_next() == 0,
    {
        IdGen { data: 0 }
    }

    /// The identifier handed out next.
    pub fn peek(&self) -> (r: u32)
        ensures
            r == self.spec_next(),
    {
        self.data
    }

    /// Hands out the next identifier.
    pub fn gen_next(&mut self) -> (r: u32)
        requires
            old(self).spec_next() < u32::MAX,
        ensures
            r == old(self).spec_next(),
            final(self).spec_next() == old(self).spec_next() + 1,
    {
        let result = self.data;
        self.data = self.data + 1;
        result
    }
}

impl Default for IdGen {
    fn default() -> (r: IdGen)
        ensures
            r.spec_next() == 0,
    {
        IdGen::new()
    }
}

} // verus!
