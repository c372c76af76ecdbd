//! Resistors.

use vstd::prelude::*;
use crate::quantity::Quantity;

verus! {

pub const NAME: &'static str = "Resistor";

/// A resistance between two nodes.
#[derive(Debug)]
pub struct Resistor<T> {
    pub resistance: T,
    pub node_indexes: (usize, usize),
}

impl<T: Copy> Resistor<T> {
    /// A resistor of `resistance` between the nodes `node_indexes`.
    pub fn new(resistance: T, node_indexes: (usize, usize)) -> (resistor: Self)
        ensures
            resistor.resistance == resistance,
            resistor.node_indexes == node_indexes,
    {
        Resistor { resistance, node_indexes }
    }

    pub fn resistance(&self) -> (resistance: T)
        ensures
            resistance == self.resistance,
    {
        self.resistance
    }

    pub fn set_resistance(&mut self, resistance: T)
        ensures
            final(self).resistance == resistance,
            final(self).node_indexes == old(self).node_indexes,
    {
        self.resistance = resistance;
    }

    /// The conductance: the reciprocal of the resistance.
    pub fn conductance(&self) -> (conductance: Quantity<T>)
        ensures
            conductance == Quantity::Reciprocal(self.resistance),
    {
        Quantity::Reciprocal(self.resistance)
    }
}

impl<T: Copy> Clone for Resistor<T> {
    fn clone(&self) -> (copy: Self)
        ensures
            copy == *self,
    {
        *self
    }
}

impl<T: Copy> Copy for Resistor<T> {
}

} // verus!
