//! Ideal voltage sources.

use vstd::prelude::*;
use crate::quantity::Quantity;

verus! {

pub const NAME: &'static str = "Voltage source";

/// A voltage held between two nodes, the second above the first, and the
/// branch of the system that carries the source's current.
#[derive(Debug)]
pub struct VoltageSource<T> {
    pub voltage: Quantity<T>,
    pub index: usize,
    pub node_indexes: (usize, usize),
}

impl<T: Copy> VoltageSource<T> {
    /// A source of `voltage` from node `from` up to node `to`, on branch 0
    /// until an assembly numbers it.
    pub fn new(voltage: T, from: usize, to: usize) -> (source: Self)
        ensures
            source.voltage == Quantity::Value(voltage),
            source.index == 0,
            source.node_indexes == (from, to),
    {
        VoltageSource { voltage: Quantity::Value(voltage), index: 0, node_indexes: (from, to) }
    }

    /// A source of zero volts from node 0 to node 1, on branch 0.
    pub fn zero() -> (source: Self)
        ensures
            source.voltage == Quantity::<T>::Zero,
            source.index == 0,
            source.node_indexes == (0usize, 1usize),
    {
        VoltageSource { voltage: Quantity::Zero, index: 0, node_indexes: (0, 1) }
    }

    /// The same source between the nodes `from` and `to`.
    pub fn between(self, from: usize, to: usize) -> (source: Self)
        ensures
            source.voltage == self.voltage,
            source.index == self.index,
            source.node_indexes == (from, to),
    {
        VoltageSource { voltage: self.voltage, index: self.index, node_indexes: (from, to) }
    }

    /// The node of the negative terminal.
    pub fn node_index_from(&self) -> (node: usize)
        ensures
            node == self.node_indexes.0,
    {
        self.node_indexes.0
    }

    /// The node of the positive terminal.
    pub fn node_index_to(&self) -> (node: usize)
        ensures
            node == self.node_indexes.1,
    {
        self.node_indexes.1
    }
}

impl<T: Copy> Clone for VoltageSource<T> {
    fn clone(&self) -> (copy: Self)
        ensures
            copy == *self,
    {
        *self
    }
}

impl<T: Copy> Copy for VoltageSource<T> {
}

} // verus!
