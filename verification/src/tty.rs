//! Terminal properties.

use vstd::prelude::*;

verus! {

/// The size of a terminal: its columns, and its rows.
#[derive(Clone, Copy, Debug, PartialEq, Eq, Structural)]
pub struct TtySize(pub u16, pub u16);

} // verus!
