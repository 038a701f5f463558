//! A spectator that ignores what it is shown.

use vstd::prelude::*;

verus! {

/// A spectator that ignores every notice.
#[derive(Clone, Copy, Debug)]
pub struct NoopFYIAgent {}

impl NoopFYIAgent {
    pub fn new() -> (r: NoopFYIAgent)
        ensures
            r == (NoopFYIAgent {}),
    {
        NoopFYIAgent {}
    }
}

impl Default for NoopFYIAgent {
    fn default() -> (r: NoopFYIAgent)
        ensures
            r == (NoopFYIAgent {}),
    {
        NoopFYIAgent::new()
    }
}

} // verus!
