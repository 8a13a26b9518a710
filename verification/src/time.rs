//! Session time.

use vstd::prelude::*;

verus! {

/// A stretch of time, in nanoseconds. Session times are counted from the start
/// of the session.
#[derive(Clone, Copy, Debug, PartialEq, Eq, Structural)]
pub struct Duration {
    pub nanos: u128,
}

impl View for Duration {
    type V = nat;

    open spec fn view(&self) -> nat {
        self.nanos as nat
    }
}

} // verus!
