//! Builder, equation and solution of a nodal system.

use vstd::prelude::*;
use crate::quantity::{Quantity, Term};
use crate::solver::linear_system::{InputStamp, LinearSystem, Stamp};

verus! {

/// Why no solution was published.
#[derive(Debug)]
pub enum Error {
    /// At the end of assembly `stamped` voltage sources had been stamped
    /// where `expected` were declared.
    IncorrectBranchCount { expected: usize, stamped: usize },
    /// Factorisation or substitution failed; the text is the numeric
    /// kernel's own account of it.
    Unsolvable(String),
    /// An element names a node or a branch that the system does not have.
    TopologyOutOfRange,
}

/// A copy of `items`, entry by entry.
fn copied<A: Copy>(items: &Vec<A>) -> (copy: Vec<A>)
    ensures
        copy@ == items@,
{
    let mut copy: Vec<A> = Vec::new();
    let mut i: usize = 0;
    while i < items.len()
        invariant
            i <= items.len(),
            copy@ == items@.take(i as int),
        decreases items.len() - i,
    {
        copy.push(items[i]);
        assert(items@.take(i as int + 1) == items@.take(i as int).push(items@[i as int]));
        i += 1;
    }
    assert(items@.take(items.len() as int) == items@);
    copy
}

/// A nodal system under assembly: an equation in the making and the count
/// of the voltage sources stamped into it.
#[derive(Debug)]
pub struct Builder<T> {
    equation: Equation<T>,
    voltage_sources_stamped: usize,
}

impl<T> View for Builder<T> {
    type V = LinearSystem<T>;

    closed spec fn view(&self) -> LinearSystem<T> {
        LinearSystem { stamped: self.voltage_sources_stamped as nat, ..self.equation@ }
    }
}

impl<T: Copy> Builder<T> {
    /// A system of `nodes` nodes, ground included, and `voltage_sources`
    /// voltage-source branches, with nothing stamped.
    pub fn new(nodes: usize, voltage_sources: usize) -> (builder: Self)
        requires
            nodes >= 1,
            nodes + voltage_sources - 1 <= usize::MAX,
        ensures
            builder@ == LinearSystem::<T>::empty(nodes as nat, voltage_sources as nat),
            builder@.well_formed(),
    {
        Builder {
            equation: Equation {
                nodes,
                voltage_sources,
                nodal_admittances: Vec::new(),
                inputs: Vec::new(),
            },
            voltage_sources_stamped: 0,
        }
    }

    /// The number of nodes, ground included.
    pub fn nodes(&self) -> (nodes: usize)
        ensures
            nodes == self@.nodes,
    {
        self.equation.nodes
    }

    /// The declared number of voltage sources.
    pub fn voltage_sources(&self) -> (declared: usize)
        ensures
            declared == self@.voltage_sources,
    {
        self.equation.voltage_sources
    }

    /// The number of voltage-source stamps asked for so far.
    pub fn voltage_sources_stamped(&self) -> (stamped: usize)
        ensures
            stamped == self@.stamped,
    {
        self.voltage_sources_stamped
    }

    /// Adds `x` to the matrix entry of `row` and `col`; does nothing where
    /// either is ground.
    pub fn stamp_nodal_admittance(&mut self, row: usize, col: usize, x: Term<T>)
        requires
            old(self)@.well_formed(),
            old(self)@.in_range(row as int),
            old(self)@.in_range(col as int),
        ensures
            final(self)@ == old(self)@.stamp_admittance(row as int, col as int, x),
            final(self)@.well_formed(),
    {
        self.equation.stamp_nodal_admittance(row, col, x);
    }

    /// Adds `x` to the right-hand side entry of `row`; does nothing where it
    /// is ground.
    pub fn stamp_input(&mut self, row: usize, x: Term<T>)
        requires
            old(self)@.well_formed(),
            old(self)@.in_range(row as int),
        ensures
            final(self)@ == old(self)@.stamp_input(row as int, x),
            final(self)@.well_formed(),
    {
        self.equation.stamp_input(row, x);
    }

    /// A conductance of `conductance` between two nodes.
    pub fn stamp_conductance(&mut self, conductance: T, node1: usize, node2: usize) -> (ret: &mut Self)
        requires
            old(self)@.well_formed(),
            old(self)@.in_range(node1 as int),
            old(self)@.in_range(node2 as int),
        ensures
            ret@ == old(self)@.stamp_conductance(
                Quantity::Value(conductance),
                node1 as int,
                node2 as int,
            ),
            ret@.well_formed(),
            *final(self) == *final(ret),
    {
        self.equation.stamp_admittance_between(Quantity::Value(conductance), node1, node2);
        self
    }

    /// A resistor of `resistance` between two nodes: the conductance that is
    /// the reciprocal of `resistance`.
    pub fn stamp_resistor(&mut self, resistance: T, node1: usize, node2: usize) -> (ret: &mut Self)
        requires
            old(self)@.well_formed(),
            old(self)@.in_range(node1 as int),
            old(self)@.in_range(node2 as int),
        ensures
            ret@ == old(self)@.stamp_conductance(
                Quantity::Reciprocal(resistance),
                node1 as int,
                node2 as int,
            ),
            ret@.well_formed(),
            *final(self) == *final(ret),
    {
        self.equation.stamp_admittance_between(Quantity::Reciprocal(resistance), node1, node2);
        self
    }

    /// A voltage source of `voltage`, given symbolically, between `from_node`
    /// and `to_node` on branch `v_num`. The stamp is counted in any case and
    /// carried out only while the count stays within the declared number.
    pub fn stamp_branch(&mut self, voltage: Quantity<T>, from_node: usize, to_node: usize, v_num: usize)
        requires
            old(self)@.well_formed(),
            old(self)@.stamped < usize::MAX,
            old(self)@.stamped < old(self)@.voltage_sources ==> {
                &&& v_num < old(self)@.voltage_sources
                &&& old(self)@.in_range(from_node as int)
                &&& old(self)@.in_range(to_node as int)
            },
        ensures
            final(self)@ == old(self)@.stamp_voltage_source(
                voltage,
                from_node as int,
                to_node as int,
                v_num as int,
            ),
            final(self)@.well_formed(),
    {
        self.voltage_sources_stamped += 1;
        if self.voltage_sources_stamped > self.equation.voltage_sources {
            return ;
        }
        let v_index = self.equation.nodes + v_num;
        self.equation.stamp_nodal_admittance(v_index, from_node, Term::minus(Quantity::One));
        self.equation.stamp_nodal_admittance(v_index, to_node, Term::plus(Quantity::One));
        self.equation.stamp_nodal_admittance(from_node, v_index, Term::plus(Quantity::One));
        self.equation.stamp_nodal_admittance(to_node, v_index, Term::minus(Quantity::One));
        self.equation.stamp_input(v_index, Term::plus(voltage));
    }

    /// A voltage source of `voltage` between `from_node` and `to_node` on
    /// branch `v_num`.
    pub fn stamp_voltage_source(
        &mut self,
        voltage: T,
        from_node: usize,
        to_node: usize,
        v_num: usize,
    ) -> (ret: &mut Self)
        requires
            old(self)@.well_formed(),
            old(self)@.stamped < usize::MAX,
            old(self)@.stamped < old(self)@.voltage_sources ==> {
                &&& v_num < old(self)@.voltage_sources
                &&& old(self)@.in_range(from_node as int)
                &&& old(self)@.in_range(to_node as int)
            },
        ensures
            ret@ == old(self)@.stamp_voltage_source(
                Quantity::Value(voltage),
                from_node as int,
                to_node as int,
                v_num as int,
            ),
            ret@.well_formed(),
            *final(self) == *final(ret),
    {
        self.stamp_branch(Quantity::Value(voltage), from_node, to_node, v_num);
        self
    }

    /// A current source of `current` that drives from `from_node` to
    /// `to_node`.
    pub fn stamp_current_source(&mut self, current: T, from_node: usize, to_node: usize) -> (ret:
        &mut Self)
        requires
            old(self)@.well_formed(),
            old(self)@.in_range(from_node as int),
            old(self)@.in_range(to_node as int),
        ensures
            ret@ == old(self)@.stamp_current_source(
                Quantity::Value(current),
                from_node as int,
                to_node as int,
            ),
            ret@.well_formed(),
            *final(self) == *final(ret),
    {
        self.equation.stamp_injection(Quantity::Value(current), from_node, to_node);
        self
    }

    /// Ends the assembly. Succeeds exactly when as many voltage sources were
    /// stamped as were declared; the equation then holds what was stamped.
    pub fn build(self) -> (built: Result<Equation<T>, Error>)
        requires
            self@.well_formed(),
        ensures
            self@.stamped == self@.voltage_sources ==> built is Ok && built->Ok_0@ == self@
                && built->Ok_0@.well_formed(),
            self@.stamped != self@.voltage_sources ==> built == Result::<Equation<T>, Error>::Err(
                Error::IncorrectBranchCount {
                    expected: self@.voltage_sources as usize,
                    stamped: self@.stamped as usize,
                },
            ),
    {
        if self.equation.voltage_sources != self.voltage_sources_stamped {
            return Err(
                Error::IncorrectBranchCount {
                    expected: self.equation.voltage_sources,
                    stamped: self.voltage_sources_stamped,
                },
            );
        }
        Ok(self.equation)
    }
}

/// A nodal system whose assembly has ended with every declared voltage source
/// stamped. Conductances and current sources can still be stamped into it,
/// as the companions of reactive elements are at every step.
#[derive(Debug)]
pub struct Equation<T> {
    nodes: usize,
    voltage_sources: usize,
    nodal_admittances: Vec<Stamp<T>>,
    inputs: Vec<InputStamp<T>>,
}

impl<T> View for Equation<T> {
    type V = LinearSystem<T>;

    closed spec fn view(&self) -> LinearSystem<T> {
        LinearSystem {
            nodes: self.nodes as nat,
            voltage_sources: self.voltage_sources as nat,
            stamped: self.voltage_sources as nat,
            admittances: self.nodal_admittances@,
            inputs: self.inputs@,
        }
    }
}

impl<T: Copy> Equation<T> {
    /// The number of nodes, ground included.
    pub fn nodes(&self) -> (nodes: usize)
        ensures
            nodes == self@.nodes,
    {
        self.nodes
    }

    /// The number of voltage-source branches.
    pub fn voltage_sources(&self) -> (branches: usize)
        ensures
            branches == self@.voltage_sources,
    {
        self.voltage_sources
    }

    /// The number of unknowns: the side of the matrix and the length of the
    /// right-hand side.
    pub fn size(&self) -> (size: usize)
        requires
            self@.well_formed(),
        ensures
            size == self@.size(),
    {
        self.nodes - 1 + self.voltage_sources
    }

    /// The contributions to the matrix, oldest first.
    pub fn admittances(&self) -> (stamps: &Vec<Stamp<T>>)
        ensures
            stamps@ == self@.admittances,
    {
        &self.nodal_admittances
    }

    /// The contributions to the right-hand side, oldest first.
    pub fn inputs(&self) -> (stamps: &Vec<InputStamp<T>>)
        ensures
            stamps@ == self@.inputs,
    {
        &self.inputs
    }

    /// Adds `x` to the matrix entry of `row` and `col`; does nothing where
    /// either is ground.
    pub fn stamp_nodal_admittance(&mut self, row: usize, col: usize, x: Term<T>)
        requires
            old(self)@.well_formed(),
            old(self)@.in_range(row as int),
            old(self)@.in_range(col as int),
        ensures
            final(self)@ == old(self)@.stamp_admittance(row as int, col as int, x),
            final(self)@.well_formed(),
    {
        if row != 0 && col != 0 {
            // ignore ground node
            self.nodal_admittances.push(Stamp { row: row - 1, col: col - 1, term: x });
        }
    }

    /// Adds `x` to the right-hand side entry of `row`; does nothing where it
    /// is ground.
    pub fn stamp_input(&mut self, row: usize, x: Term<T>)
        requires
            old(self)@.well_formed(),
            old(self)@.in_range(row as int),
        ensures
            final(self)@ == old(self)@.stamp_input(row as int, x),
            final(self)@.well_formed(),
    {
        if row != 0 {
            self.inputs.push(InputStamp { row: row - 1, term: x });
        }
    }

    /// A conductance, given symbolically, between two nodes.
    pub fn stamp_admittance_between(&mut self, g: Quantity<T>, node1: usize, node2: usize)
        requires
            old(self)@.well_formed(),
            old(self)@.in_range(node1 as int),
            old(self)@.in_range(node2 as int),
        ensures
            final(self)@ == old(self)@.stamp_conductance(g, node1 as int, node2 as int),
            final(self)@.well_formed(),
    {
        self.stamp_nodal_admittance(node1, node1, Term::plus(g));
        self.stamp_nodal_admittance(node2, node2, Term::plus(g));
        self.stamp_nodal_admittance(node1, node2, Term::minus(g));
        self.stamp_nodal_admittance(node2, node1, Term::minus(g));
    }

    /// A conductance of `conductance` between two nodes.
    pub fn stamp_conductance(&mut self, conductance: T, node1: usize, node2: usize) -> (ret: &mut Self)
        requires
            old(self)@.well_formed(),
            old(self)@.in_range(node1 as int),
            old(self)@.in_range(node2 as int),
        ensures
            ret@ == old(self)@.stamp_conductance(
                Quantity::Value(conductance),
                node1 as int,
                node2 as int,
            ),
            ret@.well_formed(),
            *final(self) == *final(ret),
    {
        self.stamp_admittance_between(Quantity::Value(conductance), node1, node2);
        self
    }

    /// A current, given symbolically, that flows from `from_node` to
    /// `to_node`.
    pub fn stamp_injection(&mut self, current: Quantity<T>, from_node: usize, to_node: usize)
        requires
            old(self)@.well_formed(),
            old(self)@.in_range(from_node as int),
            old(self)@.in_range(to_node as int),
        ensures
            final(self)@ == old(self)@.stamp_current_source(
                current,
                from_node as int,
                to_node as int,
            ),
            final(self)@.well_formed(),
    {
        self.stamp_input(from_node, Term::minus(current));
        self.stamp_input(to_node, Term::plus(current));
    }

    /// A current source of `current` that drives from `from_node` to
    /// `to_node`.
    pub fn stamp_current_source(&mut self, current: T, from_node: usize, to_node: usize) -> (ret:
        &mut Self)
        requires
            old(self)@.well_formed(),
            old(self)@.in_range(from_node as int),
            old(self)@.in_range(to_node as int),
        ensures
            ret@ == old(self)@.stamp_current_source(
                Quantity::Value(current),
                from_node as int,
                to_node as int,
            ),
            ret@.well_formed(),
            *final(self) == *final(ret),
    {
        self.stamp_injection(Quantity::Value(current), from_node, to_node);
        self
    }

    /// Packages the unknowns that a numeric solve of this equation found:
    /// the first `nodes - 1` are the voltages of the nodes from 1 on, to
    /// which ground is added in front with zero volts; the rest are the
    /// currents of the branches.
    pub fn solution(&self, unknowns: &Vec<T>) -> (solution: Solution<T>)
        requires
            self@.well_formed(),
            unknowns@.len() == self@.size(),
        ensures
            solution@ == SolutionView::of_unknowns(self@.nodes, unknowns@),
            solution@.voltages.len() == self@.nodes,
            solution@.currents.len() == self@.voltage_sources,
            solution@.voltages[0] == Quantity::<T>::Zero,
    {
        let mut voltages: Vec<Quantity<T>> = Vec::new();
        voltages.push(Quantity::Zero);
        let mut i: usize = 1;
        while i < self.nodes
            invariant
                1 <= i <= self.nodes,
                self.nodes - 1 <= unknowns.len(),
                voltages@.len() == i,
                voltages@[0] == Quantity::<T>::Zero,
                forall|k: int| 1 <= k < i ==> voltages@[k] == Quantity::Value(unknowns@[k - 1]),
            decreases self.nodes - i,
        {
            voltages.push(Quantity::Value(unknowns[i - 1]));
            i += 1;
        }
        let mut currents: Vec<Quantity<T>> = Vec::new();
        let first = self.nodes - 1;
        let mut j: usize = 0;
        while j < self.voltage_sources
            invariant
                j <= self.voltage_sources,
                first == self.nodes - 1,
                first + self.voltage_sources == unknowns.len(),
                currents@.len() == j,
                forall|k: int| 0 <= k < j ==> currents@[k] == Quantity::Value(unknowns@[first + k]),
            decreases self.voltage_sources - j,
        {
            currents.push(Quantity::Value(unknowns[first + j]));
            j += 1;
        }
        let solution = Solution { voltages, currents };
        assert(solution@.voltages =~= SolutionView::of_unknowns(self@.nodes, unknowns@).voltages);
        assert(solution@.currents =~= SolutionView::of_unknowns(self@.nodes, unknowns@).currents);
        solution
    }

    /// Ends a solve of this equation on what the numeric kernel reported:
    /// its unknowns, packaged as `solution` does, or its failure, handed on
    /// as `Unsolvable`.
    pub fn resolve(&self, outcome: Result<Vec<T>, String>) -> (solved: Result<Solution<T>, Error>)
        requires
            self@.well_formed(),
            outcome is Ok ==> outcome->Ok_0@.len() == self@.size(),
        ensures
            outcome is Ok ==> solved is Ok && solved->Ok_0@ == SolutionView::of_unknowns(
                self@.nodes,
                outcome->Ok_0@,
            ),
            outcome is Ok ==> solved->Ok_0@.voltages.len() == self@.nodes && solved->Ok_0@.voltages[0]
                == Quantity::<T>::Zero,
            outcome is Err ==> solved == Result::<Solution<T>, Error>::Err(
                Error::Unsolvable(outcome->Err_0),
            ),
    {
        match outcome {
            Ok(unknowns) => Ok(self.solution(&unknowns)),
            Err(reason) => Err(Error::Unsolvable(reason)),
        }
    }
}

/// Whether `solution` is what the numeric kernel `kernel` may find for an
/// equation that holds `system`: the kernel may return, for such an
/// equation, one unknown for each row, and `solution` packages them.
pub open spec fn found_by<T, K: FnOnce(&Equation<T>) -> Result<Vec<T>, String>>(
    kernel: K,
    system: LinearSystem<T>,
    solution: SolutionView<T>,
) -> bool {
    exists|equation: Equation<T>, unknowns: Vec<T>|
        #![trigger call_ensures(kernel, (&equation,), Result::<Vec<T>, String>::Ok(unknowns))]
        {
            &&& equation@ == system
            &&& call_ensures(kernel, (&equation,), Result::<Vec<T>, String>::Ok(unknowns))
            &&& unknowns@.len() == system.size()
            &&& solution == SolutionView::of_unknowns(system.nodes, unknowns@)
        }
}

/// Whether `error` is what a solve by the numeric kernel `kernel` may fail
/// with for an equation that holds `system`: the kernel may fail with the
/// account that `error` hands on, or may return unknowns that are not one
/// for each row, and `error` is `Unsolvable`.
pub open spec fn refused_by<T, K: FnOnce(&Equation<T>) -> Result<Vec<T>, String>>(
    kernel: K,
    system: LinearSystem<T>,
    error: Error,
) -> bool {
    exists|equation: Equation<T>, outcome: Result<Vec<T>, String>|
        #![trigger call_ensures(kernel, (&equation,), outcome)]
        {
            &&& equation@ == system
            &&& call_ensures(kernel, (&equation,), outcome)
            &&& match outcome {
                Ok(unknowns) => unknowns@.len() != system.size() && error is Unsolvable,
                Err(reason) => error == Error::Unsolvable(reason),
            }
        }
}

impl<T: Copy> Equation<T> {
    /// Solves the equation by the numeric kernel `kernel`, which is given
    /// the equation and answers with its unknowns, one for each row, or
    /// with its account of why there are none. The unknowns are packaged
    /// as `solution` does; a failure of the kernel, and an answer of the
    /// wrong length, are `Unsolvable`.
    pub fn solve<K: FnOnce(&Equation<T>) -> Result<Vec<T>, String>>(self, kernel: K) -> (solved:
        Result<Solution<T>, Error>)
        requires
            self@.well_formed(),
            call_requires(kernel, (&self,)),
        ensures
            solved is Ok ==> found_by(kernel, self@, solved->Ok_0@),
            solved is Ok ==> solved->Ok_0@.voltages.len() == self@.nodes && solved->Ok_0@.voltages[0]
                == Quantity::<T>::Zero,
            solved is Err ==> refused_by(kernel, self@, solved->Err_0),
    {
        let outcome = kernel(&self);
        let sized = match &outcome {
            Ok(unknowns) => unknowns.len() == self.size(),
            Err(_) => true,
        };
        if sized {
            self.resolve(outcome)
        } else {
            Err(Error::Unsolvable("the solution lacks unknowns or has too many".to_owned()))
        }
    }
}

impl<T: Copy> Clone for Equation<T> {
    /// A second equation with the same contents; what is stamped into either
    /// from then on does not reach the other.
    fn clone(&self) -> (copy: Self)
        ensures
            copy@ == self@,
    {
        Equation {
            nodes: self.nodes,
            voltage_sources: self.voltage_sources,
            nodal_admittances: copied(&self.nodal_admittances),
            inputs: copied(&self.inputs),
        }
    }
}

/// What a solution holds: the voltage of every node, ground first, and the
/// current of every voltage-source branch.
pub struct SolutionView<T> {
    pub voltages: Seq<Quantity<T>>,
    pub currents: Seq<Quantity<T>>,
}

impl<T> SolutionView<T> {
    /// The solution that the unknowns `x` of a system of `nodes` nodes stand
    /// for.
    pub open spec fn of_unknowns(nodes: nat, x: Seq<T>) -> Self {
        SolutionView {
            voltages: Seq::new(
                nodes,
                |i: int|
                    if i == 0 {
                        Quantity::Zero
                    } else {
                        Quantity::Value(x[i - 1])
                    },
            ),
            currents: Seq::new(
                (x.len() - (nodes - 1)) as nat,
                |j: int| Quantity::Value(x[nodes - 1 + j]),
            ),
        }
    }
}

/// Node voltages and branch currents of a solved system.
#[derive(Debug)]
pub struct Solution<T> {
    voltages: Vec<Quantity<T>>,
    currents: Vec<Quantity<T>>,
}

impl<T> View for Solution<T> {
    type V = SolutionView<T>;

    closed spec fn view(&self) -> SolutionView<T> {
        SolutionView { voltages: self.voltages@, currents: self.currents@ }
    }
}

impl<T: Copy> Solution<T> {
    /// A copy of the voltage of every node, indexed by node number.
    pub fn voltages(&self) -> (voltages: Vec<Quantity<T>>)
        ensures
            voltages@ == self@.voltages,
    {
        copied(&self.voltages)
    }

    /// The voltage of every node, indexed by node number.
    pub fn voltages_ref(&self) -> (voltages: &Vec<Quantity<T>>)
        ensures
            voltages@ == self@.voltages,
    {
        &self.voltages
    }

    /// The current of every voltage source, indexed by branch number.
    pub fn currents_ref(&self) -> (currents: &Vec<Quantity<T>>)
        ensures
            currents@ == self@.currents,
    {
        &self.currents
    }

    /// A copy of the current of every voltage source, indexed by branch
    /// number.
    pub fn currents(&self) -> (currents: Vec<Quantity<T>>)
        ensures
            currents@ == self@.currents,
    {
        copied(&self.currents)
    }
}

} // verus!
