//! Stamping of circuit elements and the assembly of the static system: the
//! part of a circuit's equation that does not change from step to step.

use vstd::prelude::*;
use crate::elements::Element;
use crate::elements::ground::Ground;
use crate::elements::voltage_source::VoltageSource;
use crate::elements::wire::Wire;
use crate::quantity::Quantity;
use crate::solver::equation::{Builder, Equation, Error};
use crate::solver::linear_system::{
    lemma_stamp_conductance_preserves, lemma_stamp_current_source_preserves,
    lemma_stamp_voltage_source_preserves, LinearSystem,
};

verus! {

impl<T> LinearSystem<T> {
    /// Whether `element` can be stamped: its terminals are nodes of the
    /// system and, where it takes a branch, the branch is one of the
    /// system's. A source that comes after all declared ones have been
    /// stamped is only counted, so nothing is asked of it.
    pub open spec fn accepts(self, element: Element<T>) -> bool {
        match element {
            Element::Resistor(r) => r.node_indexes.0 < self.nodes && r.node_indexes.1 < self.nodes,
            Element::CurrentSource(c) => c.node_indexes.0 < self.nodes && c.node_indexes.1
                < self.nodes,
            Element::VoltageSource(v) => self.stamped < self.voltage_sources ==> v.index
                < self.voltage_sources && v.node_indexes.0 < self.nodes && v.node_indexes.1
                < self.nodes,
            Element::Ground(g) => self.stamped < self.voltage_sources ==> g.index
                < self.voltage_sources && g.node < self.nodes,
            Element::Wire(w) => self.stamped < self.voltage_sources ==> w.index
                < self.voltage_sources && w.node_indexes.0 < self.nodes && w.node_indexes.1
                < self.nodes,
            Element::Capacitor(_) => true,
        }
    }

    /// The system after `element` has been stamped. A resistor is the
    /// conductance that is the reciprocal of its resistance; a ground is a
    /// source of zero volts from node 0 to its node; a wire is a source of
    /// zero volts; a capacitor leaves the static system as it is.
    pub open spec fn stamp_element(self, element: Element<T>) -> Self {
        match element {
            Element::Resistor(r) => self.stamp_conductance(
                Quantity::Reciprocal(r.resistance),
                r.node_indexes.0 as int,
                r.node_indexes.1 as int,
            ),
            Element::CurrentSource(c) => self.stamp_current_source(
                Quantity::Value(c.current),
                c.node_indexes.0 as int,
                c.node_indexes.1 as int,
            ),
            Element::VoltageSource(v) => self.stamp_voltage_source(
                v.voltage,
                v.node_indexes.0 as int,
                v.node_indexes.1 as int,
                v.index as int,
            ),
            Element::Ground(g) => self.stamp_voltage_source(
                Quantity::Zero,
                0,
                g.node as int,
                g.index as int,
            ),
            Element::Wire(w) => self.stamp_voltage_source(
                Quantity::Zero,
                w.node_indexes.0 as int,
                w.node_indexes.1 as int,
                w.index as int,
            ),
            Element::Capacitor(_) => self,
        }
    }

    /// The system after `elements` have been stamped, first to last.
    pub open spec fn stamp_elements(self, elements: Seq<Element<T>>) -> Self
        decreases elements.len(),
    {
        if elements.len() == 0 {
            self
        } else {
            self.stamp_elements(elements.drop_last()).stamp_element(elements.last())
        }
    }

    /// How many of `elements`, from the first on, can be stamped one after
    /// the other before one is met that cannot.
    pub open spec fn accepted(self, elements: Seq<Element<T>>) -> nat
        decreases elements.len(),
    {
        if elements.len() == 0 {
            0
        } else {
            let before = self.accepted(elements.drop_last());
            if before == elements.len() - 1 && self.stamp_elements(elements.drop_last()).accepts(
                elements.last(),
            ) {
                elements.len()
            } else {
                before
            }
        }
    }
}

/// The number of nodes of a circuit: one more than the highest node number
/// that any element names, and 0 for no elements.
pub open spec fn node_count<T>(elements: Seq<Element<T>>) -> int
    decreases elements.len(),
{
    if elements.len() == 0 {
        0
    } else {
        vstd::math::max(node_count(elements.drop_last()), elements.last().top_node() + 1)
    }
}

/// The number of branches of a circuit: its voltage sources, grounds and
/// wires.
pub open spec fn branch_count<T>(elements: Seq<Element<T>>) -> int
    decreases elements.len(),
{
    if elements.len() == 0 {
        0
    } else {
        branch_count(elements.drop_last()) + if elements.last().takes_branch() {
            1int
        } else {
            0int
        }
    }
}

/// The circuit with its branches numbered: each element that takes a
/// branch is on the branch whose number is the count of such elements
/// before it.
pub open spec fn numbered<T>(elements: Seq<Element<T>>) -> Seq<Element<T>> {
    Seq::new(
        elements.len(),
        |i: int| elements[i].on_branch(branch_count(elements.take(i)) as usize),
    )
}

/// Whether a system can be made for the circuit: it has ground, and a
/// machine can number its nodes and the rows of its system.
pub open spec fn has_dimensions<T>(elements: Seq<Element<T>>) -> bool {
    &&& 1 <= node_count(elements) <= usize::MAX
    &&& node_count(elements) + branch_count(elements) - 1 <= usize::MAX
}

/// The static system of a circuit: all its elements, branches numbered,
/// stamped into the empty system of the circuit's dimensions.
pub open spec fn static_system<T>(elements: Seq<Element<T>>) -> LinearSystem<T> {
    LinearSystem::empty(
        node_count(elements) as nat,
        branch_count(elements) as nat,
    ).stamp_elements(numbered(elements))
}

/// Stamping an element that the system accepts keeps the system
/// well-formed, leaves its dimensions as they were, and counts one voltage
/// source more exactly where the element takes a branch.
pub proof fn lemma_stamp_element_preserves<T>(system: LinearSystem<T>, element: Element<T>)
    requires
        system.well_formed(),
        system.accepts(element),
    ensures
        system.stamp_element(element).well_formed(),
        system.stamp_element(element).nodes == system.nodes,
        system.stamp_element(element).voltage_sources == system.voltage_sources,
        system.stamp_element(element).stamped == system.stamped + if element.takes_branch() {
            1int
        } else {
            0int
        },
{
    match element {
        Element::Resistor(r) => {
            lemma_stamp_conductance_preserves(
                system,
                Quantity::Reciprocal(r.resistance),
                r.node_indexes.0 as int,
                r.node_indexes.1 as int,
            );
        },
        Element::CurrentSource(c) => {
            lemma_stamp_current_source_preserves(
                system,
                Quantity::Value(c.current),
                c.node_indexes.0 as int,
                c.node_indexes.1 as int,
            );
        },
        Element::VoltageSource(v) => {
            lemma_stamp_voltage_source_preserves(
                system,
                v.voltage,
                v.node_indexes.0 as int,
                v.node_indexes.1 as int,
                v.index as int,
            );
        },
        Element::Ground(g) => {
            lemma_stamp_voltage_source_preserves(
                system,
                Quantity::Zero,
                0,
                g.node as int,
                g.index as int,
            );
        },
        Element::Wire(w) => {
            lemma_stamp_voltage_source_preserves(
                system,
                Quantity::Zero,
                w.node_indexes.0 as int,
                w.node_indexes.1 as int,
                w.index as int,
            );
        },
        Element::Capacitor(_) => {},
    }
}

/// Once an element was met that cannot be stamped, the elements after it
/// are not looked at: the count of stamped elements stays where it was.
pub proof fn lemma_accepted_stops<T>(system: LinearSystem<T>, elements: Seq<Element<T>>, k: int)
    requires
        0 <= k < elements.len(),
        system.accepted(elements.take(k)) == k,
        !system.stamp_elements(elements.take(k)).accepts(elements[k]),
    ensures
        system.accepted(elements) == k,
    decreases elements.len(),
{
    let shorter = elements.drop_last();
    if elements.len() == k + 1 {
        assert(shorter == elements.take(k));
    } else {
        assert(shorter.take(k) == elements.take(k));
        lemma_accepted_stops(system, shorter, k);
    }
}

impl<T: Copy> Builder<T> {
    /// Stamps one element, or refuses it with `TopologyOutOfRange` where
    /// the system does not accept it and then stays as it was.
    pub fn stamp_element(&mut self, element: &Element<T>) -> (stamped: Result<(), Error>)
        requires
            old(self)@.well_formed(),
            old(self)@.stamped < usize::MAX,
        ensures
            final(self)@.well_formed(),
            old(self)@.accepts(*element) ==> stamped is Ok && final(self)@ == old(
                self,
            )@.stamp_element(*element),
            !old(self)@.accepts(*element) ==> stamped is Err && stamped->Err_0
                is TopologyOutOfRange && final(self)@ == old(self)@,
    {
        let nodes = self.nodes();
        let branches = self.voltage_sources();
        let due = self.voltage_sources_stamped() < branches;
        match element {
            Element::Resistor(r) => {
                if r.node_indexes.0 < nodes && r.node_indexes.1 < nodes {
                    self.stamp_resistor(r.resistance, r.node_indexes.0, r.node_indexes.1);
                    Ok(())
                } else {
                    Err(Error::TopologyOutOfRange)
                }
            },
            Element::CurrentSource(c) => {
                if c.node_indexes.0 < nodes && c.node_indexes.1 < nodes {
                    self.stamp_current_source(c.current, c.node_indexes.0, c.node_indexes.1);
                    Ok(())
                } else {
                    Err(Error::TopologyOutOfRange)
                }
            },
            Element::VoltageSource(v) => {
                if !due || (v.index < branches && v.node_indexes.0 < nodes && v.node_indexes.1
                    < nodes) {
                    self.stamp_branch(v.voltage, v.node_indexes.0, v.node_indexes.1, v.index);
                    Ok(())
                } else {
                    Err(Error::TopologyOutOfRange)
                }
            },
            Element::Ground(g) => {
                if !due || (g.index < branches && g.node < nodes) {
                    // a ground always connects to node 0
                    self.stamp_branch(Quantity::Zero, 0, g.node, g.index);
                    Ok(())
                } else {
                    Err(Error::TopologyOutOfRange)
                }
            },
            Element::Wire(w) => {
                if !due || (w.index < branches && w.node_indexes.0 < nodes && w.node_indexes.1
                    < nodes) {
                    self.stamp_branch(Quantity::Zero, w.node_indexes.0, w.node_indexes.1, w.index);
                    Ok(())
                } else {
                    Err(Error::TopologyOutOfRange)
                }
            },
            Element::Capacitor(_) => Ok(()),
        }
    }

    /// Stamps `elements` first to last and stops at the first that the
    /// system does not accept, with `TopologyOutOfRange`; the elements
    /// before that one have then been stamped.
    pub fn stamp_elements(&mut self, elements: &Vec<Element<T>>) -> (stamped: Result<(), Error>)
        requires
            old(self)@.well_formed(),
            old(self)@.stamped + elements.len() <= usize::MAX,
        ensures
            final(self)@.well_formed(),
            final(self)@ == old(self)@.stamp_elements(
                elements@.take(old(self)@.accepted(elements@) as int),
            ),
            stamped is Ok <==> old(self)@.accepted(elements@) == elements@.len(),
            stamped is Err ==> stamped->Err_0 is TopologyOutOfRange,
    {
        let ghost start = self@;
        let mut i: usize = 0;
        while i < elements.len()
            invariant
                i <= elements.len(),
                start == old(self)@,
                self@.well_formed(),
                self@ == start.stamp_elements(elements@.take(i as int)),
                start.accepted(elements@.take(i as int)) == i,
                self@.stamped <= start.stamped + i,
                start.stamped + elements.len() <= usize::MAX,
            decreases elements.len() - i,
        {
            let ghost before = self@;
            proof {
                assert(elements@.take(i as int + 1).drop_last() == elements@.take(i as int));
                if before.accepts(elements@[i as int]) {
                    lemma_stamp_element_preserves(before, elements@[i as int]);
                }
            }
            match self.stamp_element(&elements[i]) {
                Ok(()) => {},
                Err(refused) => {
                    proof {
                        lemma_accepted_stops(start, elements@, i as int);
                    }
                    return Err(refused);
                },
            }
            i += 1;
        }
        proof {
            assert(elements@.take(elements@.len() as int) == elements@);
        }
        Ok(())
    }
}

/// Every element's terminals lie below the node count of its circuit, and
/// a part of a circuit has no more nodes than the whole.
pub proof fn lemma_node_count_covers<T>(elements: Seq<Element<T>>, i: int)
    requires
        0 <= i < elements.len(),
    ensures
        0 <= elements[i].top_node() < node_count(elements),
        0 <= node_count(elements.take(i)) <= node_count(elements),
    decreases elements.len(),
{
    let shorter = elements.drop_last();
    if i == elements.len() - 1 {
        assert(elements.take(i) == shorter);
        lemma_node_count_bounds(shorter);
    } else {
        assert(shorter.take(i) == elements.take(i));
        lemma_node_count_covers(shorter, i);
    }
}

/// A circuit without elements has no nodes; any other has ground and one
/// node for each number up to the highest that is named.
pub proof fn lemma_node_count_bounds<T>(elements: Seq<Element<T>>)
    ensures
        elements.len() == 0 ==> node_count(elements) == 0,
        elements.len() > 0 ==> node_count(elements) >= 1,
    decreases elements.len(),
{
    if elements.len() > 0 {
        lemma_node_count_bounds(elements.drop_last());
    }
}

/// The branches of a part of a circuit: no more than its elements, and one
/// more with each further element that takes a branch.
pub proof fn lemma_branch_count_prefix<T>(elements: Seq<Element<T>>, i: int)
    requires
        0 <= i <= elements.len(),
    ensures
        0 <= branch_count(elements.take(i)) <= i,
        branch_count(elements.take(i)) <= branch_count(elements),
        i < elements.len() ==> branch_count(elements.take(i + 1)) == branch_count(
            elements.take(i),
        ) + if elements[i].takes_branch() {
            1int
        } else {
            0int
        },
        i < elements.len() && elements[i].takes_branch() ==> branch_count(elements.take(i))
            < branch_count(elements),
    decreases elements.len() - i,
{
    lemma_branch_count_small(elements.take(i));
    if i < elements.len() {
        assert(elements.take(i + 1).drop_last() == elements.take(i));
        lemma_branch_count_prefix(elements, i + 1);
    } else {
        assert(elements.take(i) == elements);
    }
}

/// A circuit has no more branches than elements.
pub proof fn lemma_branch_count_small<T>(elements: Seq<Element<T>>)
    ensures
        0 <= branch_count(elements) <= elements.len(),
    decreases elements.len(),
{
    if elements.len() > 0 {
        lemma_branch_count_small(elements.drop_last());
    }
}

/// What the assembly of a circuit has reached after its first `i` elements:
/// all of them were accepted, the system is well-formed and of the
/// circuit's dimensions, and as many voltage sources were stamped as
/// branches were numbered.
pub proof fn lemma_static_assembly<T>(elements: Seq<Element<T>>, i: int)
    requires
        node_count(elements) >= 1,
        node_count(elements) + branch_count(elements) - 1 <= usize::MAX,
        0 <= i <= elements.len(),
    ensures
        ({
            let start = LinearSystem::<T>::empty(
                node_count(elements) as nat,
                branch_count(elements) as nat,
            );
            let reached = start.stamp_elements(numbered(elements).take(i));
            &&& start.accepted(numbered(elements).take(i)) == i
            &&& reached.well_formed()
            &&& reached.nodes == node_count(elements)
            &&& reached.voltage_sources == branch_count(elements)
            &&& reached.stamped == branch_count(elements.take(i))
        }),
    decreases i,
{
    let start = LinearSystem::<T>::empty(
        node_count(elements) as nat,
        branch_count(elements) as nat,
    );
    lemma_branch_count_small(elements);
    if i == 0 {
        assert(numbered(elements).take(0).len() == 0);
        assert(elements.take(0).len() == 0);
    } else {
        let part = numbered(elements).take(i);
        assert(part.drop_last() == numbered(elements).take(i - 1));
        lemma_static_assembly(elements, i - 1);
        let before = start.stamp_elements(numbered(elements).take(i - 1));
        let element = part.last();
        assert(element == elements[i - 1].on_branch(branch_count(elements.take(i - 1)) as usize));
        lemma_node_count_covers(elements, i - 1);
        lemma_branch_count_prefix(elements, i - 1);
        assert(element.top_node() == elements[i - 1].top_node());
        assert(element.takes_branch() == elements[i - 1].takes_branch());
        assert(before.accepts(element));
        lemma_stamp_element_preserves(before, element);
    }
}

/// Numbering the branches of a circuit changes neither its nodes nor its
/// branches, and numbering it again changes nothing.
pub proof fn lemma_numbered_again<T>(elements: Seq<Element<T>>)
    ensures
        node_count(numbered(elements)) == node_count(elements),
        branch_count(numbered(elements)) == branch_count(elements),
        numbered(numbered(elements)) == numbered(elements),
    decreases elements.len(),
{
    let once = numbered(elements);
    if elements.len() > 0 {
        let shorter = elements.drop_last();
        assert(once.drop_last() == numbered(shorter)) by {
            assert forall|i: int| 0 <= i < shorter.len() implies once.drop_last()[i] == numbered(
                shorter,
            )[i] by {
                assert(shorter.take(i) == elements.take(i));
            }
        }
        lemma_numbered_again(shorter);
    }
    assert forall|i: int| 0 <= i < elements.len() implies numbered(once)[i] == once[i] by {
        assert(once.take(i) == numbered(elements.take(i))) by {
            assert forall|k: int| 0 <= k < i implies once.take(i)[k] == numbered(
                elements.take(i),
            )[k] by {
                assert(elements.take(i).take(k) == elements.take(k));
            }
        }
        lemma_numbered_part(elements.take(i));
    }
}

/// Numbering the branches of a circuit does not change their count.
pub proof fn lemma_numbered_part<T>(elements: Seq<Element<T>>)
    ensures
        branch_count(numbered(elements)) == branch_count(elements),
    decreases elements.len(),
{
    if elements.len() > 0 {
        let shorter = elements.drop_last();
        assert(numbered(elements).drop_last() == numbered(shorter)) by {
            assert forall|i: int| 0 <= i < shorter.len() implies numbered(elements).drop_last()[i]
                == numbered(shorter)[i] by {
                assert(shorter.take(i) == elements.take(i));
            }
        }
        lemma_numbered_part(shorter);
    }
}

/// An earlier part of a circuit has no more branches than a later one.
pub proof fn lemma_branch_count_grows<T>(elements: Seq<Element<T>>, a: int, b: int)
    requires
        0 <= a <= b <= elements.len(),
    ensures
        branch_count(elements.take(a)) <= branch_count(elements.take(b)),
{
    assert(elements.take(b).take(a) == elements.take(a));
    lemma_branch_count_prefix(elements.take(b), a);
}

/// No two elements of a numbered circuit are on the same branch, every
/// branch is one of the circuit's, and every terminal one of its nodes.
pub proof fn lemma_numbered_apart<T>(elements: Seq<Element<T>>, i: int, j: int)
    requires
        branch_count(elements) <= usize::MAX,
        0 <= i < elements.len(),
        0 <= j < elements.len(),
        elements[i].takes_branch(),
    ensures
        numbered(elements)[i].takes_branch(),
        numbered(elements)[i].branch() == branch_count(elements.take(i)),
        0 <= numbered(elements)[i].branch() < branch_count(elements),
        numbered(elements)[j].top_node() < node_count(elements),
        j != i && numbered(elements)[j].takes_branch() ==> numbered(elements)[j].branch()
            != numbered(elements)[i].branch(),
{
    lemma_branch_count_prefix(elements, i);
    lemma_branch_count_prefix(elements, j);
    lemma_node_count_covers(elements, j);
    if j != i && elements[j].takes_branch() {
        if j < i {
            lemma_branch_count_grows(elements, j + 1, i);
        } else {
            lemma_branch_count_grows(elements, i + 1, j);
        }
    }
}

/// Every branch of a numbered circuit is taken: for each number below the
/// count of branches there is an element on the branch of that number.
pub proof fn lemma_every_branch_taken<T>(elements: Seq<Element<T>>, branch: int) -> (i: int)
    requires
        0 <= branch < branch_count(elements),
        branch_count(elements) <= usize::MAX,
    ensures
        0 <= i < elements.len(),
        numbered(elements)[i].takes_branch(),
        numbered(elements)[i].branch() == branch,
    decreases elements.len(),
{
    let shorter = elements.drop_last();
    let last = elements.len() - 1;
    lemma_branch_count_small(shorter);
    if elements.last().takes_branch() && branch_count(shorter) == branch {
        assert(elements.take(last) == shorter);
        last
    } else {
        let i = lemma_every_branch_taken(shorter, branch);
        assert(shorter.take(i) == elements.take(i));
        i
    }
}

/// Assembling a circuit again, from the elements as the first assembly
/// numbered them, gives the same static system: the same dimensions and
/// the same contributions in the same order.
pub proof fn lemma_reassembly_idempotent<T>(elements: Seq<Element<T>>)
    ensures
        static_system(numbered(elements)) == static_system(elements),
{
    lemma_numbered_again(elements);
}

/// The element on branch `branch`, where it takes one.
pub fn on_branch<T: Copy>(element: &Element<T>, branch: usize) -> (numbered: Element<T>)
    ensures
        numbered == element.on_branch(branch),
{
    match element {
        Element::VoltageSource(v) => Element::VoltageSource(
            VoltageSource { voltage: v.voltage, index: branch, node_indexes: v.node_indexes },
        ),
        Element::Ground(g) => Element::Ground(Ground { node: g.node, index: branch }),
        Element::Wire(w) => Element::Wire(Wire { node_indexes: w.node_indexes, index: branch }),
        _ => *element,
    }
}

/// Whether the element takes a branch of the system.
pub fn takes_branch<T: Copy>(element: &Element<T>) -> (takes: bool)
    ensures
        takes == element.takes_branch(),
{
    match element {
        Element::VoltageSource(_) => true,
        Element::Ground(_) => true,
        Element::Wire(_) => true,
        _ => false,
    }
}

/// The highest node number among the element's terminals.
pub fn top_node<T: Copy>(element: &Element<T>) -> (top: usize)
    ensures
        top == element.top_node(),
{
    let (a, b) = match element {
        Element::Resistor(r) => r.node_indexes,
        Element::CurrentSource(c) => c.node_indexes,
        Element::VoltageSource(v) => v.node_indexes,
        Element::Ground(g) => (g.node, g.node),
        Element::Wire(w) => w.node_indexes,
        Element::Capacitor(c) => c.node_indexes,
    };
    if a >= b {
        a
    } else {
        b
    }
}

/// The number of nodes of the circuit, where a machine number can hold it.
pub fn count_nodes<T: Copy>(elements: &Vec<Element<T>>) -> (nodes: Option<usize>)
    ensures
        node_count(elements@) <= usize::MAX ==> nodes == Some(node_count(elements@) as usize),
        node_count(elements@) > usize::MAX ==> nodes is None,
{
    if elements.len() == 0 {
        return Some(0);
    }
    let mut highest: usize = 0;
    let mut i: usize = 0;
    while i < elements.len()
        invariant
            i <= elements.len(),
            i == 0 ==> highest == 0,
            i > 0 ==> node_count(elements@.take(i as int)) == highest + 1,
        decreases elements.len() - i,
    {
        let top = top_node(&elements[i]);
        proof {
            assert(elements@.take(i as int + 1).drop_last() == elements@.take(i as int));
            lemma_node_count_bounds(elements@.take(i as int));
        }
        if top > highest {
            highest = top;
        }
        i += 1;
    }
    proof {
        assert(elements@.take(elements@.len() as int) == elements@);
    }
    if highest == usize::MAX {
        None
    } else {
        Some(highest + 1)
    }
}

/// The number of branches of the circuit.
pub fn count_branches<T: Copy>(elements: &Vec<Element<T>>) -> (branches: usize)
    ensures
        branches == branch_count(elements@),
{
    let mut branches: usize = 0;
    let mut i: usize = 0;
    while i < elements.len()
        invariant
            i <= elements.len(),
            branches == branch_count(elements@.take(i as int)),
            branches <= i,
        decreases elements.len() - i,
    {
        proof {
            lemma_branch_count_prefix(elements@, i as int);
        }
        if takes_branch(&elements[i]) {
            branches += 1;
        }
        i += 1;
    }
    proof {
        assert(elements@.take(elements@.len() as int) == elements@);
    }
    branches
}

/// Gives every voltage source, ground and wire a branch of its own: the
/// numbers run from 0 in the order of the elements, without a gap.
pub fn assign_branches<T: Copy>(elements: &mut Vec<Element<T>>)
    ensures
        final(elements)@ == numbered(old(elements)@),
{
    let mut next: usize = 0;
    let mut i: usize = 0;
    while i < elements.len()
        invariant
            i <= elements.len(),
            elements@.len() == old(elements)@.len(),
            next == branch_count(old(elements)@.take(i as int)),
            next <= i,
            forall|k: int| 0 <= k < i ==> elements@[k] == numbered(old(elements)@)[k],
            forall|k: int| i <= k < elements@.len() ==> elements@[k] == old(elements)@[k],
        decreases elements.len() - i,
    {
        proof {
            lemma_branch_count_prefix(old(elements)@, i as int);
        }
        let element = elements[i];
        if takes_branch(&element) {
            elements.set(i, on_branch(&element, next));
            next += 1;
        }
        i += 1;
    }
    assert(elements@ =~= numbered(old(elements)@));
}

/// Assembles the static system of a circuit: numbers the branches, takes
/// the dimensions from the elements, and stamps every element that does not
/// change with time. To be called whenever the circuit is modified.
pub fn create_static_equation<T: Copy>(elements: &mut Vec<Element<T>>) -> (equation: Equation<T>)
    requires
        has_dimensions(old(elements)@),
    ensures
        final(elements)@ == numbered(old(elements)@),
        equation@ == static_system(old(elements)@),
        equation@.well_formed(),
        equation@.nodes == node_count(old(elements)@),
        equation@.voltage_sources == branch_count(old(elements)@),
{
    proof {
        lemma_branch_count_small(old(elements)@);
    }
    let nodes = count_nodes(elements).unwrap();
    let branches = count_branches(elements);
    assign_branches(elements);
    let mut builder: Builder<T> = Builder::new(nodes, branches);
    proof {
        lemma_static_assembly(old(elements)@, old(elements)@.len() as int);
        assert(elements@.take(elements@.len() as int) == elements@);
        assert(old(elements)@.take(old(elements)@.len() as int) == old(elements)@);
    }
    let _ = builder.stamp_elements(elements);
    builder.build().unwrap()
}

/// Assembles the static system of a circuit, or refuses the circuit with
/// `TopologyOutOfRange` where it has no node at all or more nodes and
/// branches than a system can number; the elements then stay as they were.
pub fn build_static<T: Copy>(elements: &mut Vec<Element<T>>) -> (built: Result<Equation<T>, Error>)
    ensures
        has_dimensions(old(elements)@) ==> {
            &&& built is Ok
            &&& built->Ok_0@ == static_system(old(elements)@)
            &&& built->Ok_0@.well_formed()
            &&& built->Ok_0@.nodes == node_count(old(elements)@)
            &&& built->Ok_0@.voltage_sources == branch_count(old(elements)@)
            &&& final(elements)@ == numbered(old(elements)@)
        },
        !has_dimensions(old(elements)@) ==> {
            &&& built is Err
            &&& built->Err_0 is TopologyOutOfRange
            &&& final(elements)@ == old(elements)@
        },
{
    proof {
        lemma_branch_count_small(elements@);
        lemma_node_count_bounds(elements@);
    }
    let branches = count_branches(elements);
    match count_nodes(elements) {
        Some(nodes) => {
            if nodes >= 1 && nodes - 1 <= usize::MAX - branches {
                Ok(create_static_equation(elements))
            } else {
                Err(Error::TopologyOutOfRange)
            }
        },
        None => Err(Error::TopologyOutOfRange),
    }
}

} // verus!
