//! What the assembled equations say. Read in numbers, each row that stands
//! for a node is Kirchhoff's current law at that node, and each row that
//! stands for a branch holds the voltage of the branch's source.
//!
//! The numbers here are integers. The statements are identities between
//! sums and products, so they hold as well in any other arithmetic in which
//! sums and products obey the usual laws exactly.

use vstd::prelude::*;
use crate::elements::Element;
use crate::quantity::{Quantity, Sign, Term};
use crate::solver::linear_system::{InputStamp, LinearSystem, Stamp};
use crate::solver::stamp_static::{
    branch_count, has_dimensions, lemma_branch_count_small, lemma_numbered_apart,
    lemma_numbered_part, lemma_stamp_element_preserves, lemma_static_assembly, node_count,
    numbered, static_system,
};

verus! {

/// A reading of a system in numbers: what every value and every reciprocal
/// of a value is worth, and what every unknown is.
#[verifier::reject_recursive_types(T)]
pub struct Reading<T> {
    pub value: spec_fn(T) -> int,
    pub reciprocal: spec_fn(T) -> int,
    pub unknowns: spec_fn(int) -> int,
}

impl<T> Reading<T> {
    /// What a quantity is worth.
    pub open spec fn worth(self, quantity: Quantity<T>) -> int {
        match quantity {
            Quantity::Zero => 0,
            Quantity::One => 1,
            Quantity::Value(value) => (self.value)(value),
            Quantity::Reciprocal(value) => (self.reciprocal)(value),
        }
    }

    /// What a term is worth: its quantity, with its sign.
    pub open spec fn signed(self, term: Term<T>) -> int {
        match term.sign {
            Sign::Plus => self.worth(term.quantity),
            Sign::Minus => -self.worth(term.quantity),
        }
    }

    /// The voltage of a node: zero on ground, and the node's unknown
    /// elsewhere.
    pub open spec fn voltage(self, node: int) -> int {
        if node == 0 {
            0
        } else {
            (self.unknowns)(node - 1)
        }
    }

    /// The current of a branch in a system of `nodes` nodes: the branch's
    /// unknown.
    pub open spec fn current(self, nodes: nat, branch: int) -> int {
        (self.unknowns)(nodes - 1 + branch)
    }

    /// The current that leaves `node` through a conductance `g` between
    /// the nodes `a` and `b`: by Ohm's law, `g` times the voltage from
    /// `node` to the other end.
    pub open spec fn through_conductance(self, g: Quantity<T>, a: int, b: int, node: int) -> int {
        (if node == a {
            self.worth(g) * (self.voltage(a) - self.voltage(b))
        } else {
            0
        }) + (if node == b {
            self.worth(g) * (self.voltage(b) - self.voltage(a))
        } else {
            0
        })
    }

    /// The current that leaves `node` by a current `i` that flows from
    /// `from` to `to`.
    pub open spec fn through_branch(self, i: int, from: int, to: int, node: int) -> int {
        (if node == from {
            i
        } else {
            0
        }) - (if node == to {
            i
        } else {
            0
        })
    }

    /// The current that leaves `node` through `element`, in a system of
    /// `nodes` nodes.
    pub open spec fn leaving(self, element: Element<T>, nodes: nat, node: int) -> int {
        match element {
            Element::Resistor(r) => self.through_conductance(
                Quantity::Reciprocal(r.resistance),
                r.node_indexes.0 as int,
                r.node_indexes.1 as int,
                node,
            ),
            Element::CurrentSource(c) => self.through_branch(
                self.worth(Quantity::Value(c.current)),
                c.node_indexes.0 as int,
                c.node_indexes.1 as int,
                node,
            ),
            Element::Capacitor(_) => 0,
            _ => self.through_branch(
                self.current(nodes, element.branch()),
                element.from_node(),
                element.to_node(),
                node,
            ),
        }
    }

    /// By how much the voltage across `element` exceeds the voltage it is
    /// to hold, where `element` is the source on branch `branch`; zero for
    /// every other element.
    pub open spec fn excess(self, element: Element<T>, branch: int) -> int {
        if element.takes_branch() && element.branch() == branch {
            self.voltage(element.to_node()) - self.voltage(element.from_node()) - self.worth(
                element.held(),
            )
        } else {
            0
        }
    }

    /// What `element` adds to the left of row `r`, less what it adds to
    /// the right: the current that leaves the row's node through it, or its
    /// excess on the row's branch.
    pub open spec fn share(self, element: Element<T>, nodes: nat, r: int) -> int {
        self.leaving(element, nodes, r + 1) + self.excess(element, r - (nodes - 1))
    }

    /// The shares of `elements` in row `r`, summed.
    pub open spec fn shares(self, elements: Seq<Element<T>>, nodes: nat, r: int) -> int
        decreases elements.len(),
    {
        if elements.len() == 0 {
            0
        } else {
            self.shares(elements.drop_last(), nodes, r) + self.share(elements.last(), nodes, r)
        }
    }

    /// The currents that leave `node` through `elements`, summed.
    pub open spec fn all_leaving(self, elements: Seq<Element<T>>, nodes: nat, node: int) -> int
        decreases elements.len(),
    {
        if elements.len() == 0 {
            0
        } else {
            self.all_leaving(elements.drop_last(), nodes, node) + self.leaving(
                elements.last(),
                nodes,
                node,
            )
        }
    }
}

/// The left of row `r` of the matrix equation: every contribution to the
/// row, times the unknown of its column, summed.
pub open spec fn row_sum<T>(stamps: Seq<Stamp<T>>, r: int, reading: Reading<T>) -> int
    decreases stamps.len(),
{
    if stamps.len() == 0 {
        0
    } else {
        row_sum(stamps.drop_last(), r, reading) + if stamps.last().row == r {
            reading.signed(stamps.last().term) * (reading.unknowns)(stamps.last().col as int)
        } else {
            0
        }
    }
}

/// The right of row `r` of the matrix equation: every contribution to the
/// row, summed.
pub open spec fn input_sum<T>(stamps: Seq<InputStamp<T>>, r: int, reading: Reading<T>) -> int
    decreases stamps.len(),
{
    if stamps.len() == 0 {
        0
    } else {
        input_sum(stamps.drop_last(), r, reading) + if stamps.last().row == r {
            reading.signed(stamps.last().term)
        } else {
            0
        }
    }
}

impl<T> LinearSystem<T> {
    /// By how much the left of row `r` exceeds its right.
    pub open spec fn residual(self, r: int, reading: Reading<T>) -> int {
        row_sum(self.admittances, r, reading) - input_sum(self.inputs, r, reading)
    }

    /// Whether the unknowns of `reading` solve the system: in every row
    /// the left equals the right.
    pub open spec fn solved_by(self, reading: Reading<T>) -> bool {
        forall|r: int| 0 <= r < self.size() ==> #[trigger] self.residual(r, reading) == 0
    }
}

/// What a stamp into the matrix adds to a row.
pub proof fn lemma_residual_admittance<T>(
    system: LinearSystem<T>,
    row: int,
    col: int,
    x: Term<T>,
    r: int,
    reading: Reading<T>,
)
    requires
        0 <= row <= usize::MAX,
        0 <= col <= usize::MAX,
    ensures
        system.stamp_admittance(row, col, x).residual(r, reading) == system.residual(r, reading)
            + if row != 0 && col != 0 && r == row - 1 {
            reading.signed(x) * (reading.unknowns)(col - 1)
        } else {
            0
        },
{
    if row != 0 && col != 0 {
        let stamp = Stamp { row: (row - 1) as usize, col: (col - 1) as usize, term: x };
        assert(system.admittances.push(stamp).drop_last() == system.admittances);
    }
}

/// What a stamp into the right-hand side takes from a row.
pub proof fn lemma_residual_input<T>(
    system: LinearSystem<T>,
    row: int,
    x: Term<T>,
    r: int,
    reading: Reading<T>,
)
    requires
        0 <= row <= usize::MAX,
    ensures
        system.stamp_input(row, x).residual(r, reading) == system.residual(r, reading) - if row != 0
            && r == row - 1 {
            reading.signed(x)
        } else {
            0
        },
{
    if row != 0 {
        let stamp = InputStamp { row: (row - 1) as usize, term: x };
        assert(system.inputs.push(stamp).drop_last() == system.inputs);
    }
}

/// A conductance adds to the row of each node the current that leaves the
/// node through it.
pub proof fn lemma_residual_conductance<T>(
    system: LinearSystem<T>,
    g: Quantity<T>,
    a: int,
    b: int,
    r: int,
    reading: Reading<T>,
)
    requires
        0 <= a <= usize::MAX,
        0 <= b <= usize::MAX,
        0 <= r,
    ensures
        system.stamp_conductance(g, a, b).residual(r, reading) == system.residual(r, reading)
            + reading.through_conductance(g, a, b, r + 1),
{
    let plus = Term { sign: Sign::Plus, quantity: g };
    let minus = Term { sign: Sign::Minus, quantity: g };
    let s1 = system.stamp_admittance(a, a, plus);
    let s2 = s1.stamp_admittance(b, b, plus);
    let s3 = s2.stamp_admittance(a, b, minus);
    lemma_residual_admittance(system, a, a, plus, r, reading);
    lemma_residual_admittance(s1, b, b, plus, r, reading);
    lemma_residual_admittance(s2, a, b, minus, r, reading);
    lemma_residual_admittance(s3, b, a, minus, r, reading);
    let w = reading.worth(g);
    let va = reading.voltage(a);
    let vb = reading.voltage(b);
    assert(w * (va - vb) == w * va - w * vb) by (nonlinear_arith);
    assert(w * (vb - va) == w * vb - w * va) by (nonlinear_arith);
    assert((-w) * va == -(w * va)) by (nonlinear_arith);
    assert((-w) * vb == -(w * vb)) by (nonlinear_arith);
    assert(w * 0 == 0) by (nonlinear_arith);
}

/// A current source adds to the row of each node the current that leaves
/// the node through it.
pub proof fn lemma_residual_current_source<T>(
    system: LinearSystem<T>,
    i: Quantity<T>,
    from: int,
    to: int,
    r: int,
    reading: Reading<T>,
)
    requires
        0 <= from <= usize::MAX,
        0 <= to <= usize::MAX,
        0 <= r,
    ensures
        system.stamp_current_source(i, from, to).residual(r, reading) == system.residual(r, reading)
            + reading.through_branch(reading.worth(i), from, to, r + 1),
{
    let minus = Term { sign: Sign::Minus, quantity: i };
    let plus = Term { sign: Sign::Plus, quantity: i };
    lemma_residual_input(system, from, minus, r, reading);
    lemma_residual_input(system.stamp_input(from, minus), to, plus, r, reading);
}

/// A voltage source that is carried out adds to the row of each node the
/// current that leaves the node through its branch, and to the row of its
/// branch the excess of the voltage across it over the voltage it holds.
pub proof fn lemma_residual_voltage_source<T>(
    system: LinearSystem<T>,
    v: Quantity<T>,
    from: int,
    to: int,
    branch: int,
    r: int,
    reading: Reading<T>,
)
    requires
        system.well_formed(),
        system.stamped < system.voltage_sources,
        0 <= branch < system.voltage_sources,
        0 <= from < system.nodes,
        0 <= to < system.nodes,
        0 <= r,
    ensures
        system.stamp_voltage_source(v, from, to, branch).residual(r, reading) == system.residual(
            r,
            reading,
        ) + reading.through_branch(reading.current(system.nodes, branch), from, to, r + 1) + if r
            == system.nodes - 1 + branch {
            reading.voltage(to) - reading.voltage(from) - reading.worth(v)
        } else {
            0
        },
{
    let k = system.nodes + branch;
    let plus = Term { sign: Sign::Plus, quantity: Quantity::<T>::One };
    let minus = Term { sign: Sign::Minus, quantity: Quantity::<T>::One };
    let s0 = system.count_voltage_source();
    let s1 = s0.stamp_admittance(k, from, minus);
    let s2 = s1.stamp_admittance(k, to, plus);
    let s3 = s2.stamp_admittance(from, k, plus);
    let s4 = s3.stamp_admittance(to, k, minus);
    assert(s0.residual(r, reading) == system.residual(r, reading));
    lemma_residual_admittance(s0, k, from, minus, r, reading);
    lemma_residual_admittance(s1, k, to, plus, r, reading);
    lemma_residual_admittance(s2, from, k, plus, r, reading);
    lemma_residual_admittance(s3, to, k, minus, r, reading);
    lemma_residual_input(s4, k, Term { sign: Sign::Plus, quantity: v }, r, reading);
    let i = reading.current(system.nodes, branch);
    let vf = reading.voltage(from);
    let vt = reading.voltage(to);
    assert(1 * i == i && (-1) * i == -i) by (nonlinear_arith);
    assert(1 * vt == vt && (-1) * vf == -vf) by (nonlinear_arith);
}

/// An element that the system accepts, and carries out where it takes a
/// branch, adds its share to every row.
pub proof fn lemma_residual_element<T>(
    system: LinearSystem<T>,
    element: Element<T>,
    r: int,
    reading: Reading<T>,
)
    requires
        system.well_formed(),
        system.accepts(element),
        element.takes_branch() ==> system.stamped < system.voltage_sources,
        0 <= r,
    ensures
        system.stamp_element(element).residual(r, reading) == system.residual(r, reading)
            + reading.share(element, system.nodes, r),
{
    match element {
        Element::Resistor(e) => {
            lemma_residual_conductance(
                system,
                Quantity::Reciprocal(e.resistance),
                e.node_indexes.0 as int,
                e.node_indexes.1 as int,
                r,
                reading,
            );
        },
        Element::CurrentSource(e) => {
            lemma_residual_current_source(
                system,
                Quantity::Value(e.current),
                e.node_indexes.0 as int,
                e.node_indexes.1 as int,
                r,
                reading,
            );
        },
        Element::Capacitor(_) => {},
        _ => {
            lemma_residual_voltage_source(
                system,
                element.held(),
                element.from_node(),
                element.to_node(),
                element.branch(),
                r,
                reading,
            );
        },
    }
}

/// Ohm's law, by conductance. The current that leaves the first terminal
/// of a resistor through it is the resistor's conductance times the voltage
/// from the first terminal to the second, and the current that leaves the
/// second terminal is that current with the opposite sign.
pub proof fn lemma_ohm<T>(
    reading: Reading<T>,
    resistor: crate::elements::resistor::Resistor<T>,
    nodes: nat,
)
    requires
        resistor.node_indexes.0 != resistor.node_indexes.1,
    ensures
        reading.leaving(Element::Resistor(resistor), nodes, resistor.node_indexes.0 as int)
            == reading.worth(Quantity::Reciprocal(resistor.resistance)) * (reading.voltage(
            resistor.node_indexes.0 as int,
        ) - reading.voltage(resistor.node_indexes.1 as int)),
        reading.leaving(Element::Resistor(resistor), nodes, resistor.node_indexes.1 as int)
            == -reading.leaving(Element::Resistor(resistor), nodes, resistor.node_indexes.0 as int),
{
    let g = reading.worth(Quantity::Reciprocal(resistor.resistance));
    let first = reading.voltage(resistor.node_indexes.0 as int);
    let second = reading.voltage(resistor.node_indexes.1 as int);
    assert(g * (second - first) == -(g * (first - second))) by (nonlinear_arith);
}

/// Ohm's law, by resistance, for a reading that counts every number in
/// parts of its unit, `scale` parts to the unit, so that a product of two
/// numbers counts in parts of parts. Where the resistance of a resistor
/// times its conductance is one, the resistance times the current that
/// leaves the first terminal through the resistor is the voltage from the
/// first terminal to the second.
pub proof fn lemma_ohm_by_resistance<T>(
    reading: Reading<T>,
    resistor: crate::elements::resistor::Resistor<T>,
    nodes: nat,
    scale: int,
)
    requires
        reading.worth(Quantity::Value(resistor.resistance)) * reading.worth(
            Quantity::Reciprocal(resistor.resistance),
        ) == scale * scale,
        resistor.node_indexes.0 != resistor.node_indexes.1,
    ensures
        reading.worth(Quantity::Value(resistor.resistance)) * reading.leaving(
            Element::Resistor(resistor),
            nodes,
            resistor.node_indexes.0 as int,
        ) == scale * scale * (reading.voltage(resistor.node_indexes.0 as int) - reading.voltage(
            resistor.node_indexes.1 as int,
        )),
{
    let g = reading.worth(Quantity::Reciprocal(resistor.resistance));
    let ohms = reading.worth(Quantity::Value(resistor.resistance));
    let across = reading.voltage(resistor.node_indexes.0 as int) - reading.voltage(
        resistor.node_indexes.1 as int,
    );
    assert(ohms * (g * across) == (ohms * g) * across) by (nonlinear_arith);
}

/// No more elements are stamped than there are.
pub proof fn lemma_accepted_bound<T>(system: LinearSystem<T>, elements: Seq<Element<T>>)
    ensures
        system.accepted(elements) <= elements.len(),
    decreases elements.len(),
{
    if elements.len() > 0 {
        lemma_accepted_bound(system, elements.drop_last());
    }
}

/// Elements that are all accepted and all carried out add their shares to
/// every row, and leave the system well-formed, of the same dimensions, and
/// with one voltage source more counted for each that takes a branch.
pub proof fn lemma_residual_elements<T>(
    system: LinearSystem<T>,
    elements: Seq<Element<T>>,
    r: int,
    reading: Reading<T>,
)
    requires
        system.well_formed(),
        system.accepted(elements) == elements.len(),
        system.stamped + branch_count(elements) <= system.voltage_sources,
        0 <= r,
    ensures
        system.stamp_elements(elements).residual(r, reading) == system.residual(r, reading)
            + reading.shares(elements, system.nodes, r),
        system.stamp_elements(elements).well_formed(),
        system.stamp_elements(elements).nodes == system.nodes,
        system.stamp_elements(elements).voltage_sources == system.voltage_sources,
        system.stamp_elements(elements).stamped == system.stamped + branch_count(elements),
    decreases elements.len(),
{
    if elements.len() > 0 {
        let shorter = elements.drop_last();
        let last = elements.last();
        lemma_accepted_bound(system, shorter);
        lemma_branch_count_small(shorter);
        lemma_residual_elements(system, shorter, r, reading);
        let reached = system.stamp_elements(shorter);
        lemma_residual_element(reached, last, r, reading);
        lemma_stamp_element_preserves(reached, last);
    }
}

/// Every row of the static system of a circuit is the sum of the shares of
/// the circuit's elements.
pub proof fn lemma_static_shares<T>(elements: Seq<Element<T>>, r: int, reading: Reading<T>)
    requires
        has_dimensions(elements),
        0 <= r,
    ensures
        static_system(elements).residual(r, reading) == reading.shares(
            numbered(elements),
            node_count(elements) as nat,
            r,
        ),
{
    let start = LinearSystem::<T>::empty(
        node_count(elements) as nat,
        branch_count(elements) as nat,
    );
    lemma_branch_count_small(elements);
    lemma_static_assembly(elements, elements.len() as int);
    assert(numbered(elements).take(elements.len() as int) == numbered(elements));
    lemma_numbered_part(elements);
    lemma_residual_elements(start, numbered(elements), r, reading);
}

/// In the row of a node only currents are summed: no element has an
/// excess there.
pub proof fn lemma_shares_at_node<T>(
    reading: Reading<T>,
    elements: Seq<Element<T>>,
    nodes: nat,
    node: int,
)
    requires
        node < nodes,
    ensures
        reading.shares(elements, nodes, node - 1) == reading.all_leaving(elements, nodes, node),
    decreases elements.len(),
{
    if elements.len() > 0 {
        lemma_shares_at_node(reading, elements.drop_last(), nodes, node);
    }
}

/// Kirchhoff's current law. Where the unknowns solve the static system of a
/// circuit, the currents that leave a node off ground through the elements
/// sum to zero: through each resistor the current that Ohm's law gives for
/// the voltage across it, through each current source its current, and
/// through each voltage source, ground and wire the current of its branch.
pub proof fn lemma_kirchhoff_current_law<T>(elements: Seq<Element<T>>, node: int, reading: Reading<T>)
    requires
        has_dimensions(elements),
        1 <= node < node_count(elements),
        static_system(elements).solved_by(reading),
    ensures
        reading.all_leaving(numbered(elements), node_count(elements) as nat, node) == 0,
{
    let system = static_system(elements);
    lemma_branch_count_small(elements);
    lemma_static_assembly(elements, elements.len() as int);
    assert(numbered(elements).take(elements.len() as int) == numbered(elements));
    assert(system.size() == node_count(elements) + branch_count(elements) - 1);
    assert(system.residual(node - 1, reading) == 0);
    lemma_static_shares(elements, node - 1, reading);
    lemma_shares_at_node(reading, numbered(elements), node_count(elements) as nat, node);
}

/// In the row of a branch that no element is on, nothing is summed.
pub proof fn lemma_shares_off_branch<T>(
    reading: Reading<T>,
    elements: Seq<Element<T>>,
    nodes: nat,
    branch: int,
)
    requires
        0 <= branch,
        forall|j: int| 0 <= j < elements.len() ==> (#[trigger] elements[j]).top_node() < nodes,
        forall|j: int|
            0 <= j < elements.len() && (#[trigger] elements[j]).takes_branch() ==> elements[j].branch()
                != branch,
    ensures
        reading.shares(elements, nodes, nodes - 1 + branch) == 0,
    decreases elements.len(),
{
    if elements.len() > 0 {
        let shorter = elements.drop_last();
        assert forall|j: int| 0 <= j < shorter.len() implies (#[trigger] shorter[j]).top_node()
            < nodes by {
            assert(shorter[j] == elements[j]);
        }
        assert forall|j: int|
            0 <= j < shorter.len() && (#[trigger] shorter[j]).takes_branch() implies shorter[j].branch()
            != branch by {
            assert(shorter[j] == elements[j]);
        }
        lemma_shares_off_branch(reading, shorter, nodes, branch);
        assert(elements.last() == elements[elements.len() - 1]);
    }
}

/// In the row of a branch that one element alone is on, the excess of that
/// element is all that is summed.
pub proof fn lemma_shares_on_branch<T>(
    reading: Reading<T>,
    elements: Seq<Element<T>>,
    nodes: nat,
    branch: int,
    i: int,
)
    requires
        0 <= branch,
        0 <= i < elements.len(),
        elements[i].takes_branch(),
        elements[i].branch() == branch,
        forall|j: int| 0 <= j < elements.len() ==> (#[trigger] elements[j]).top_node() < nodes,
        forall|j: int|
            0 <= j < elements.len() && j != i && (#[trigger] elements[j]).takes_branch()
                ==> elements[j].branch() != branch,
    ensures
        reading.shares(elements, nodes, nodes - 1 + branch) == reading.excess(elements[i], branch),
    decreases elements.len(),
{
    let shorter = elements.drop_last();
    assert(elements.last() == elements[elements.len() - 1]);
    assert forall|j: int| 0 <= j < shorter.len() implies (#[trigger] shorter[j]).top_node()
        < nodes by {
        assert(shorter[j] == elements[j]);
    }
    if i == elements.len() - 1 {
        assert forall|j: int|
            0 <= j < shorter.len() && (#[trigger] shorter[j]).takes_branch() implies shorter[j].branch()
            != branch by {
            assert(shorter[j] == elements[j]);
        }
        lemma_shares_off_branch(reading, shorter, nodes, branch);
    } else {
        assert forall|j: int|
            0 <= j < shorter.len() && j != i && (#[trigger] shorter[j]).takes_branch()
            implies shorter[j].branch() != branch by {
            assert(shorter[j] == elements[j]);
        }
        assert(shorter[i] == elements[i]);
        lemma_shares_on_branch(reading, shorter, nodes, branch, i);
    }
}

/// Every source holds its voltage. Where the unknowns solve the static
/// system of a circuit, the voltage at the positive end of a voltage
/// source less the voltage at its negative end is the voltage of the
/// source; across a wire, and from ground to the node of a ground, it is
/// zero.
pub proof fn lemma_voltage_source_exact<T>(elements: Seq<Element<T>>, i: int, reading: Reading<T>)
    requires
        has_dimensions(elements),
        0 <= i < elements.len(),
        elements[i].takes_branch(),
        static_system(elements).solved_by(reading),
    ensures
        reading.voltage(numbered(elements)[i].to_node()) - reading.voltage(
            numbered(elements)[i].from_node(),
        ) == reading.worth(numbered(elements)[i].held()),
{
    let system = static_system(elements);
    let sources = numbered(elements);
    let nodes = node_count(elements) as nat;
    lemma_branch_count_small(elements);
    lemma_static_assembly(elements, elements.len() as int);
    assert(sources.take(elements.len() as int) == sources);
    lemma_numbered_apart(elements, i, i);
    let branch = sources[i].branch();
    let r = nodes - 1 + branch;
    assert(system.size() == node_count(elements) + branch_count(elements) - 1);
    assert(system.residual(r, reading) == 0);
    lemma_static_shares(elements, r, reading);
    assert forall|j: int| 0 <= j < sources.len() implies (#[trigger] sources[j]).top_node()
        < nodes by {
        lemma_numbered_apart(elements, i, j);
    }
    assert forall|j: int|
        0 <= j < sources.len() && j != i && (#[trigger] sources[j]).takes_branch()
        implies sources[j].branch() != branch by {
        lemma_numbered_apart(elements, i, j);
    }
    lemma_shares_on_branch(reading, sources, nodes, branch, i);
}

/// The values that `weigh` gives to the items of `items`, summed.
pub open spec fn total<A>(items: Seq<A>, weigh: spec_fn(A) -> int) -> int
    decreases items.len(),
{
    if items.len() == 0 {
        0
    } else {
        total(items.drop_last(), weigh) + weigh(items.last())
    }
}

/// A sum without one of its items is the sum less that item's value.
pub proof fn lemma_total_remove<A>(items: Seq<A>, weigh: spec_fn(A) -> int, i: int)
    requires
        0 <= i < items.len(),
    ensures
        total(items, weigh) == total(items.remove(i), weigh) + weigh(items[i]),
    decreases items.len(),
{
    let shorter = items.drop_last();
    if i == items.len() - 1 {
        assert(items.remove(i) == shorter);
    } else {
        lemma_total_remove(shorter, weigh, i);
        assert(items.remove(i).drop_last() == shorter.remove(i));
        assert(items.remove(i).last() == items.last());
    }
}

/// A sum does not depend on the order of its items.
pub proof fn lemma_total_any_order<A>(first: Seq<A>, second: Seq<A>, weigh: spec_fn(A) -> int)
    requires
        first.to_multiset() == second.to_multiset(),
    ensures
        total(first, weigh) == total(second, weigh),
    decreases first.len(),
{
    broadcast use vstd::seq_lib::group_to_multiset_ensures;

    if first.len() == 0 {
        first.to_multiset_ensures();
        second.to_multiset_ensures();
        assert(second.len() == 0);
    } else {
        let shorter = first.drop_last();
        let item = first.last();
        assert(first == shorter.push(item));
        assert(second.to_multiset().count(item) > 0);
        assert(second.contains(item));
        let i = choose|i: int| 0 <= i < second.len() && second[i] == item;
        assert(second.remove(i).to_multiset() =~= shorter.to_multiset());
        lemma_total_any_order(shorter, second.remove(i), weigh);
        lemma_total_remove(second, weigh, i);
    }
}

/// The shares of elements in a row are a sum over the elements, and so is
/// the count of their branches.
pub proof fn lemma_shares_are_a_total<T>(
    reading: Reading<T>,
    elements: Seq<Element<T>>,
    nodes: nat,
    r: int,
)
    ensures
        reading.shares(elements, nodes, r) == total(
            elements,
            |element: Element<T>| reading.share(element, nodes, r),
        ),
        branch_count(elements) == total(
            elements,
            |element: Element<T>|
                if element.takes_branch() {
                    1int
                } else {
                    0int
                },
        ),
    decreases elements.len(),
{
    if elements.len() > 0 {
        lemma_shares_are_a_total(reading, elements.drop_last(), nodes, r);
    }
}

impl<T> LinearSystem<T> {
    /// Whether `element` has a place in the system whatever was stamped
    /// before it: its terminals are nodes of the system and, where it
    /// takes a branch, the branch is one of the system's.
    pub open spec fn fits(self, element: Element<T>) -> bool {
        &&& element.top_node() < self.nodes
        &&& element.takes_branch() ==> element.branch() < self.voltage_sources
    }
}

/// Elements that all fit, and whose sources are no more than the system
/// has still to take, are all accepted.
pub proof fn lemma_fitting_accepted<T>(system: LinearSystem<T>, elements: Seq<Element<T>>)
    requires
        system.well_formed(),
        forall|i: int| 0 <= i < elements.len() ==> system.fits(#[trigger] elements[i]),
        system.stamped + branch_count(elements) <= system.voltage_sources,
    ensures
        system.accepted(elements) == elements.len(),
        system.stamp_elements(elements).well_formed(),
        system.stamp_elements(elements).nodes == system.nodes,
        system.stamp_elements(elements).voltage_sources == system.voltage_sources,
        system.stamp_elements(elements).stamped == system.stamped + branch_count(elements),
    decreases elements.len(),
{
    if elements.len() > 0 {
        let shorter = elements.drop_last();
        let last = elements.last();
        assert(last == elements[elements.len() - 1]);
        assert forall|i: int| 0 <= i < shorter.len() implies system.fits(#[trigger] shorter[i]) by {
            assert(shorter[i] == elements[i]);
        }
        lemma_branch_count_small(shorter);
        lemma_fitting_accepted(system, shorter);
        lemma_stamp_element_preserves(system.stamp_elements(shorter), last);
    }
}

/// The order of the visits cannot be seen. Two orders of the same
/// elements, all of which fit into the system, give equations that say the
/// same: in every row, what stands on the left less what stands on the
/// right is the same number.
pub proof fn lemma_order_unobservable<T>(
    system: LinearSystem<T>,
    first: Seq<Element<T>>,
    second: Seq<Element<T>>,
    r: int,
    reading: Reading<T>,
)
    requires
        system.well_formed(),
        first.to_multiset() == second.to_multiset(),
        forall|i: int| 0 <= i < first.len() ==> system.fits(#[trigger] first[i]),
        system.stamped + branch_count(first) <= system.voltage_sources,
        0 <= r,
    ensures
        system.stamp_elements(first).residual(r, reading) == system.stamp_elements(second).residual(
            r,
            reading,
        ),
{
    broadcast use vstd::seq_lib::group_to_multiset_ensures;

    let share = |element: Element<T>| reading.share(element, system.nodes, r);
    let branch = |element: Element<T>|
        if element.takes_branch() {
            1int
        } else {
            0int
        };
    assert forall|i: int| 0 <= i < second.len() implies system.fits(#[trigger] second[i]) by {
        assert(second.contains(second[i]));
        assert(first.to_multiset().count(second[i]) > 0);
        assert(first.contains(second[i]));
    }
    lemma_shares_are_a_total(reading, first, system.nodes, r);
    lemma_shares_are_a_total(reading, second, system.nodes, r);
    lemma_total_any_order(first, second, share);
    lemma_total_any_order(first, second, branch);
    lemma_fitting_accepted(system, first);
    lemma_fitting_accepted(system, second);
    lemma_residual_elements(system, first, r, reading);
    lemma_residual_elements(system, second, r, reading);
}

} // verus!
