//! The circuit elements and what the solver publishes about them.

use vstd::prelude::*;
use crate::quantity::Quantity;
use crate::elements::capacitor::Capacitor;
use crate::elements::current_source::CurrentSource;
use crate::elements::ground::Ground;
use crate::elements::resistor::Resistor;
use crate::elements::voltage_source::VoltageSource;
use crate::elements::wire::Wire;

pub mod capacitor;
pub mod current_source;
pub mod ground;
pub mod resistor;
pub mod voltage_source;
pub mod wire;

verus! {

/// What every element of a circuit is shown as.
#[derive(Debug, Clone, Copy)]
pub struct CircuitElement {
    display_name: &'static str,
}

impl CircuitElement {
    /// The characters of the name.
    pub closed spec fn name(&self) -> Seq<char> {
        self.display_name@
    }

    /// An element shown as `display_name`.
    pub fn new(display_name: &'static str) -> (element: Self)
        ensures
            element.name() == display_name@,
    {
        CircuitElement { display_name }
    }

    /// The name the element is shown as.
    pub fn display_name(&self) -> (name: &'static str)
        ensures
            name@ == self.name(),
    {
        self.display_name
    }
}

/// An element of a circuit, tagged with its kind.
#[derive(Debug)]
pub enum Element<T> {
    Resistor(Resistor<T>),
    CurrentSource(CurrentSource<T>),
    VoltageSource(VoltageSource<T>),
    Ground(Ground),
    Wire(Wire),
    Capacitor(Capacitor<T>),
}

impl<T> Element<T> {
    /// Whether the element takes a branch of the system: voltage sources
    /// do, and so do grounds and wires, which are sources of zero volts.
    pub open spec fn takes_branch(self) -> bool {
        self is VoltageSource || self is Ground || self is Wire
    }

    /// The highest node number among the element's terminals.
    pub open spec fn top_node(self) -> int {
        match self {
            Element::Resistor(r) => vstd::math::max(r.node_indexes.0 as int, r.node_indexes.1 as int),
            Element::CurrentSource(c) => vstd::math::max(
                c.node_indexes.0 as int,
                c.node_indexes.1 as int,
            ),
            Element::VoltageSource(v) => vstd::math::max(
                v.node_indexes.0 as int,
                v.node_indexes.1 as int,
            ),
            Element::Ground(g) => g.node as int,
            Element::Wire(w) => vstd::math::max(w.node_indexes.0 as int, w.node_indexes.1 as int),
            Element::Capacitor(c) => vstd::math::max(c.node_indexes.0 as int, c.node_indexes.1 as int),
        }
    }

    /// The branch of an element that takes one.
    pub open spec fn branch(self) -> int {
        match self {
            Element::VoltageSource(v) => v.index as int,
            Element::Ground(g) => g.index as int,
            Element::Wire(w) => w.index as int,
            _ => 0,
        }
    }

    /// The node at the negative end of an element that takes a branch;
    /// for a ground, node 0.
    pub open spec fn from_node(self) -> int {
        match self {
            Element::VoltageSource(v) => v.node_indexes.0 as int,
            Element::Wire(w) => w.node_indexes.0 as int,
            _ => 0,
        }
    }

    /// The node at the positive end of an element that takes a branch.
    pub open spec fn to_node(self) -> int {
        match self {
            Element::VoltageSource(v) => v.node_indexes.1 as int,
            Element::Ground(g) => g.node as int,
            Element::Wire(w) => w.node_indexes.1 as int,
            _ => 0,
        }
    }

    /// The voltage that an element that takes a branch is to hold: zero for
    /// a ground and for a wire.
    pub open spec fn held(self) -> Quantity<T> {
        match self {
            Element::VoltageSource(v) => v.voltage,
            _ => Quantity::Zero,
        }
    }

    /// The element on branch `branch`, where it takes one; the element
    /// itself, where it takes none.
    pub open spec fn on_branch(self, branch: usize) -> Self {
        match self {
            Element::VoltageSource(v) => Element::VoltageSource(
                VoltageSource { index: branch, ..v },
            ),
            Element::Ground(g) => Element::Ground(Ground { index: branch, ..g }),
            Element::Wire(w) => Element::Wire(Wire { index: branch, ..w }),
            _ => self,
        }
    }
}

impl<T: Copy> Clone for Element<T> {
    fn clone(&self) -> (copy: Self)
        ensures
            copy == *self,
    {
        *self
    }
}

impl<T: Copy> Copy for Element<T> {
}

/// A terminal of an element: the node it is connected to and the voltage
/// last published for that node.
#[derive(Debug, PartialEq)]
pub struct Node<T> {
    pub index: usize,
    pub voltage: Quantity<T>,
}

impl<T> Default for Node<T> {
    /// A terminal on ground, at zero volts.
    fn default() -> (node: Self)
        ensures
            node == (Node::<T> { index: 0, voltage: Quantity::Zero }),
    {
        Node { index: 0, voltage: Quantity::Zero }
    }
}

/// The terminals of one element, in their order: the first is where the
/// element starts, the second where it ends.
#[derive(Debug)]
pub struct Nodes<T>(pub Vec<Node<T>>);

impl<T: Copy> Nodes<T> {
    /// `num` terminals, all on ground at zero volts.
    pub fn new(num: usize) -> (nodes: Self)
        ensures
            nodes.0@.len() == num,
            forall|i: int|
                0 <= i < num ==> nodes.0@[i] == (Node::<T> { index: 0, voltage: Quantity::Zero }),
    {
        let mut nodes: Vec<Node<T>> = Vec::new();
        let mut i: usize = 0;
        while i < num
            invariant
                i <= num,
                nodes@.len() == i,
                forall|k: int|
                    0 <= k < i ==> nodes@[k] == (Node::<T> { index: 0, voltage: Quantity::Zero }),
            decreases num - i,
        {
            nodes.push(Node { index: 0, voltage: Quantity::Zero });
            i += 1;
        }
        Nodes(nodes)
    }
}

/// The current that the last solve found through a voltage source.
#[derive(Debug, PartialEq)]
pub struct CalculatedCurrent<T>(pub Quantity<T>);

impl<T> Default for CalculatedCurrent<T> {
    /// No current.
    fn default() -> (current: Self)
        ensures
            current == CalculatedCurrent::<T>(Quantity::Zero),
    {
        CalculatedCurrent(Quantity::Zero)
    }
}

/// A current that is not an unknown of the system but follows from its
/// solution, as the current of a capacitor does.
#[derive(Debug, PartialEq)]
pub struct DerivedCurrent<T>(pub Quantity<T>);

impl<T> Default for DerivedCurrent<T> {
    /// No current.
    fn default() -> (current: Self)
        ensures
            current == DerivedCurrent::<T>(Quantity::Zero),
    {
        DerivedCurrent(Quantity::Zero)
    }
}

impl<T: Copy> Clone for Node<T> {
    fn clone(&self) -> (copy: Self)
        ensures
            copy == *self,
    {
        *self
    }
}

impl<T: Copy> Copy for Node<T> {
}

impl<T: Copy> Clone for CalculatedCurrent<T> {
    fn clone(&self) -> (copy: Self)
        ensures
            copy == *self,
    {
        *self
    }
}

impl<T: Copy> Copy for CalculatedCurrent<T> {
}

impl<T: Copy> Clone for DerivedCurrent<T> {
    fn clone(&self) -> (copy: Self)
        ensures
            copy == *self,
    {
        *self
    }
}

impl<T: Copy> Copy for DerivedCurrent<T> {
}

} // verus!
