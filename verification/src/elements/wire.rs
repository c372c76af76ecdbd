//! Wires.

use vstd::prelude::*;

verus! {

pub const NAME: &'static str = "Wire";

/// An ideal connection of two nodes. It is a source of zero volts on a
/// branch of its own, not a resistor of zero ohms, whose conductance no
/// number could hold.
#[derive(Debug, Clone, Copy, PartialEq, Eq)]
pub struct Wire {
    pub node_indexes: (usize, usize),
    pub index: usize,
}

impl Wire {
    /// A wire from node `from` to node `to`, on branch 0 until an assembly
    /// numbers it.
    pub fn new(from: usize, to: usize) -> (wire: Self)
        ensures
            wire == (Wire { node_indexes: (from, to), index: 0 }),
    {
        Wire { node_indexes: (from, to), index: 0 }
    }
}

} // verus!
