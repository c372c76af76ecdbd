//! Ideal current sources.

use vstd::prelude::*;

verus! {

pub const NAME: &'static str = "Current source";

/// A current driven from one node to another.
#[derive(Debug)]
pub struct CurrentSource<T> {
    pub current: T,
    pub node_indexes: (usize, usize),
}

impl<T: Copy> CurrentSource<T> {
    /// A source that drives `current` from node `from` to node `to`.
    pub fn new(current: T, from: usize, to: usize) -> (source: Self)
        ensures
            source.current == current,
            source.node_indexes == (from, to),
    {
        CurrentSource { current, node_indexes: (from, to) }
    }

    /// The node that the current leaves.
    pub fn node_index_from(&self) -> (node: usize)
        ensures
            node == self.node_indexes.0,
    {
        self.node_indexes.0
    }

    /// The node at which the current arrives.
    pub fn node_index_to(&self) -> (node: usize)
        ensures
            node == self.node_indexes.1,
    {
        self.node_indexes.1
    }
}

impl<T: Copy> Clone for CurrentSource<T> {
    fn clone(&self) -> (copy: Self)
        ensures
            copy == *self,
    {
        *self
    }
}

impl<T: Copy> Copy for CurrentSource<T> {
}

} // verus!
