//! Ground references.

use vstd::prelude::*;

verus! {

pub const NAME: &'static str = "Ground";

/// A node tied to ground: a source of zero volts from node 0 to `node`, on
/// a branch of its own.
#[derive(Debug, Clone, Copy, PartialEq, Eq)]
pub struct Ground {
    pub node: usize,
    pub index: usize,
}

impl Ground {
    /// A ground reference on `node`, on branch 0 until an assembly numbers
    /// it.
    pub fn new(node: usize) -> (ground: Self)
        ensures
            ground == (Ground { node, index: 0 }),
    {
        Ground { node, index: 0 }
    }
}

} // verus!
