//! A stand-in decision maker that is never asked anything.

use vstd::prelude::*;

verus! {

/// A stand-in for a decision maker that is moved away for a while; it is
/// never asked to decide.
#[derive(Clone, Copy, Debug)]
pub struct NoopFAAgent {}

impl NoopFAAgent {
    pub fn new() -> (r: NoopFAAgent)
        ensures
            r == (NoopFAAgent {}),
    {
        NoopFAAgent {}
    }
}

impl Default for NoopFAAgent {
    fn default() -> (r: NoopFAAgent)
        ensures
            r == (NoopFAAgent {}),
    {
        NoopFAAgent::new()
    }
}

} // verus!
