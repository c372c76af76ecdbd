//! One step of the transient loop: the companions of the capacitors are
//! stamped into a copy of the static system, and the solution of that copy
//! is published to the elements.

use vstd::prelude::*;
use crate::elements::capacitor::Companion;
use crate::elements::{CalculatedCurrent, Node, Nodes};
use crate::quantity::Quantity;
use crate::solver::equation::{found_by, refused_by, Equation, Error, Solution, SolutionView};
use crate::solver::kirchhoff::{
    lemma_residual_conductance, lemma_residual_current_source, Reading,
};
use crate::solver::linear_system::{
    lemma_stamp_conductance_preserves, lemma_stamp_current_source_preserves, LinearSystem,
};

verus! {

impl<T> LinearSystem<T> {
    /// Whether both terminals of `companion` are nodes of the system.
    pub open spec fn connects(self, companion: Companion<T>) -> bool {
        companion.node_indexes.0 < self.nodes && companion.node_indexes.1 < self.nodes
    }

    /// The system after `companion` has been stamped: the conductance
    /// between the capacitor's terminals, and the current source from the
    /// second terminal to the first.
    pub open spec fn stamp_companion(self, companion: Companion<T>) -> Self {
        self.stamp_conductance(
            Quantity::Value(companion.conductance),
            companion.node_indexes.0 as int,
            companion.node_indexes.1 as int,
        ).stamp_current_source(
            Quantity::Value(companion.current),
            companion.node_indexes.1 as int,
            companion.node_indexes.0 as int,
        )
    }

    /// The system after `companions` have been stamped, first to last.
    pub open spec fn stamp_companions(self, companions: Seq<Companion<T>>) -> Self
        decreases companions.len(),
    {
        if companions.len() == 0 {
            self
        } else {
            self.stamp_companions(companions.drop_last()).stamp_companion(companions.last())
        }
    }

    /// Whether every one of `companions` has both terminals on nodes of the
    /// system.
    pub open spec fn connects_all(self, companions: Seq<Companion<T>>) -> bool {
        forall|i: int| 0 <= i < companions.len() ==> self.connects(#[trigger] companions[i])
    }
}

/// Stamping the companion of a capacitor that the system connects keeps
/// the system well-formed and leaves its dimensions and its count of
/// voltage sources as they were.
pub proof fn lemma_stamp_companion_preserves<T>(system: LinearSystem<T>, companion: Companion<T>)
    requires
        system.well_formed(),
        system.connects(companion),
    ensures
        system.stamp_companion(companion).well_formed(),
        system.stamp_companion(companion).nodes == system.nodes,
        system.stamp_companion(companion).voltage_sources == system.voltage_sources,
        system.stamp_companion(companion).stamped == system.stamped,
{
    let a = companion.node_indexes.0 as int;
    let b = companion.node_indexes.1 as int;
    lemma_stamp_conductance_preserves(system, Quantity::Value(companion.conductance), a, b);
    lemma_stamp_current_source_preserves(
        system.stamp_conductance(Quantity::Value(companion.conductance), a, b),
        Quantity::Value(companion.current),
        b,
        a,
    );
}

/// The companion of a capacitor adds to the row of each node the current
/// that leaves the node through the capacitor in this step: the current
/// through the companion's conductance, less the companion's current where
/// the node is the capacitor's first terminal, and plus it where the node
/// is the second.
pub proof fn lemma_residual_companion<T>(
    system: LinearSystem<T>,
    companion: Companion<T>,
    r: int,
    reading: Reading<T>,
)
    requires
        0 <= r,
    ensures
        system.stamp_companion(companion).residual(r, reading) == system.residual(r, reading)
            + reading.through_conductance(
            Quantity::Value(companion.conductance),
            companion.node_indexes.0 as int,
            companion.node_indexes.1 as int,
            r + 1,
        ) + reading.through_branch(
            reading.worth(Quantity::Value(companion.current)),
            companion.node_indexes.1 as int,
            companion.node_indexes.0 as int,
            r + 1,
        ),
{
    let a = companion.node_indexes.0 as int;
    let b = companion.node_indexes.1 as int;
    let g = Quantity::Value(companion.conductance);
    lemma_residual_conductance(system, g, a, b, r, reading);
    lemma_residual_current_source(
        system.stamp_conductance(g, a, b),
        Quantity::Value(companion.current),
        b,
        a,
        r,
        reading,
    );
}

impl<T: Copy> Equation<T> {
    /// Stamps the companion of one capacitor, or refuses it with
    /// `TopologyOutOfRange` where a terminal of it is no node of the system,
    /// which then stays as it was.
    pub fn stamp_capacitor(&mut self, companion: Companion<T>) -> (stamped: Result<(), Error>)
        requires
            old(self)@.well_formed(),
        ensures
            final(self)@.well_formed(),
            old(self)@.connects(companion) ==> stamped is Ok && final(self)@ == old(
                self,
            )@.stamp_companion(companion),
            !old(self)@.connects(companion) ==> stamped is Err && stamped->Err_0
                is TopologyOutOfRange && final(self)@ == old(self)@,
    {
        let nodes = self.nodes();
        let (n0, n1) = companion.node_indexes;
        if n0 < nodes && n1 < nodes {
            self.stamp_conductance(companion.conductance, n0, n1);
            // the companion's source drives against the order of the terminals
            self.stamp_current_source(companion.current, n1, n0);
            Ok(())
        } else {
            Err(Error::TopologyOutOfRange)
        }
    }
}

/// The equation of one step: a copy of the static system `template` into
/// which the companion of every capacitor has been stamped. The template is
/// left as it is. Where a terminal of some capacitor is no node of the
/// system, there is no equation for the step.
pub fn step_equation<T: Copy>(template: &Equation<T>, companions: &Vec<Companion<T>>) -> (step:
    Result<Equation<T>, Error>)
    requires
        template@.well_formed(),
    ensures
        template@.connects_all(companions@) ==> step is Ok && step->Ok_0@.well_formed()
            && step->Ok_0@ == template@.stamp_companions(companions@),
        !template@.connects_all(companions@) ==> step is Err && step->Err_0 is TopologyOutOfRange,
{
    let mut equation = template.clone();
    let mut i: usize = 0;
    while i < companions.len()
        invariant
            i <= companions.len(),
            template@.well_formed(),
            equation@.well_formed(),
            equation@.nodes == template@.nodes,
            template@.connects_all(companions@.take(i as int)),
            equation@ == template@.stamp_companions(companions@.take(i as int)),
        decreases companions.len() - i,
    {
        proof {
            assert(companions@.take(i as int + 1).drop_last() == companions@.take(i as int));
            if equation@.connects(companions@[i as int]) {
                lemma_stamp_companion_preserves(equation@, companions@[i as int]);
            }
        }
        match equation.stamp_capacitor(companions[i]) {
            Ok(()) => {},
            Err(refused) => {
                return Err(refused);
            },
        }
        proof {
            assert forall|k: int| 0 <= k < i + 1 implies template@.connects(
                #[trigger] companions@.take(i as int + 1)[k],
            ) by {
                if k < i {
                    assert(companions@.take(i as int)[k] == companions@[k]);
                }
            }
        }
        i += 1;
    }
    proof {
        assert(companions@.take(companions@.len() as int) == companions@);
    }
    Ok(equation)
}

impl<T> SolutionView<T> {
    /// Whether the solution has a voltage for the node of each of
    /// `terminals`.
    pub open spec fn covers(self, terminals: Seq<Node<T>>) -> bool {
        forall|i: int| 0 <= i < terminals.len() ==> (#[trigger] terminals[i]).index < self.voltages.len()
    }

    /// `terminals` with the voltage of each one's node written into it.
    pub open spec fn published(self, terminals: Seq<Node<T>>) -> Seq<Node<T>> {
        Seq::new(
            terminals.len(),
            |i: int| Node { index: terminals[i].index, voltage: self.voltages[terminals[i].index as int] },
        )
    }
}

impl<T: Copy> Solution<T> {
    /// The voltage of node `node`, where the solved system has that node.
    pub fn voltage(&self, node: usize) -> (voltage: Option<Quantity<T>>)
        ensures
            node < self@.voltages.len() ==> voltage == Some(self@.voltages[node as int]),
            node >= self@.voltages.len() ==> voltage is None,
    {
        let voltages = self.voltages_ref();
        if node < voltages.len() {
            Some(voltages[node])
        } else {
            None
        }
    }

    /// The current of branch `branch`, where the solved system has that
    /// branch.
    pub fn current(&self, branch: usize) -> (current: Option<Quantity<T>>)
        ensures
            branch < self@.currents.len() ==> current == Some(self@.currents[branch as int]),
            branch >= self@.currents.len() ==> current is None,
    {
        let currents = self.currents_ref();
        if branch < currents.len() {
            Some(currents[branch])
        } else {
            None
        }
    }

    /// Writes the voltage of its node into every one of an element's
    /// terminals, or into none of them: where the solution lacks the node of
    /// some terminal, the terminals stay as they were and the error is
    /// `TopologyOutOfRange`.
    pub fn publish_voltages(&self, terminals: &mut Nodes<T>) -> (published: Result<(), Error>)
        ensures
            self@.covers(old(terminals).0@) ==> published is Ok && final(terminals).0@
                == self@.published(old(terminals).0@),
            !self@.covers(old(terminals).0@) ==> published is Err && published->Err_0
                is TopologyOutOfRange && final(terminals).0@ == old(terminals).0@,
    {
        let voltages = self.voltages_ref();
        let mut i: usize = 0;
        while i < terminals.0.len()
            invariant
                i <= terminals.0.len(),
                *terminals == *old(terminals),
                voltages@ == self@.voltages,
                forall|k: int| 0 <= k < i ==> (#[trigger] terminals.0@[k]).index < voltages@.len(),
            decreases terminals.0.len() - i,
        {
            if terminals.0[i].index >= voltages.len() {
                return Err(Error::TopologyOutOfRange);
            }
            i += 1;
        }
        let mut j: usize = 0;
        while j < terminals.0.len()
            invariant
                j <= terminals.0.len(),
                terminals.0@.len() == old(terminals).0@.len(),
                voltages@ == self@.voltages,
                self@.covers(old(terminals).0@),
                forall|k: int|
                    0 <= k < j ==> terminals.0@[k] == self@.published(old(terminals).0@)[k],
                forall|k: int| j <= k < terminals.0@.len() ==> terminals.0@[k] == old(terminals).0@[k],
            decreases terminals.0.len() - j,
        {
            let node = terminals.0[j];
            terminals.0.set(j, Node { index: node.index, voltage: voltages[node.index] });
            j += 1;
        }
        assert(terminals.0@ =~= self@.published(old(terminals).0@));
        Ok(())
    }

    /// Writes the current of branch `branch` into a voltage source's
    /// calculated current; where the solution lacks the branch, the current
    /// stays as it was and the error is `TopologyOutOfRange`.
    pub fn publish_current(&self, branch: usize, current: &mut CalculatedCurrent<T>) -> (published:
        Result<(), Error>)
        ensures
            branch < self@.currents.len() ==> published is Ok && *final(current)
                == CalculatedCurrent(self@.currents[branch as int]),
            branch >= self@.currents.len() ==> published is Err && published->Err_0
                is TopologyOutOfRange && *final(current) == *old(current),
    {
        match self.current(branch) {
            Some(found) => {
                *current = CalculatedCurrent(found);
                Ok(())
            },
            None => Err(Error::TopologyOutOfRange),
        }
    }
}

impl<T> SolutionView<T> {
    /// Whether the solution has a voltage for every terminal of every
    /// element and a current for every one of `branches`.
    pub open spec fn covers_all(self, terminals: Seq<Nodes<T>>, branches: Seq<usize>) -> bool {
        &&& forall|i: int| 0 <= i < terminals.len() ==> self.covers((#[trigger] terminals[i]).0@)
        &&& forall|j: int| 0 <= j < branches.len() ==> (#[trigger] branches[j]) < self.currents.len()
    }

    /// Whether `terminals` and `currents` are what the solution makes of
    /// `before` and of `branches`: every terminal shows the voltage of its
    /// node, and the current at each place is the current of the branch at
    /// that place.
    pub open spec fn shown_in(
        self,
        before: Seq<Nodes<T>>,
        branches: Seq<usize>,
        terminals: Seq<Nodes<T>>,
        currents: Seq<CalculatedCurrent<T>>,
    ) -> bool {
        &&& terminals.len() == before.len()
        &&& forall|i: int|
            0 <= i < before.len() ==> (#[trigger] terminals[i]).0@ == self.published(before[i].0@)
        &&& currents.len() == branches.len()
        &&& forall|j: int|
            0 <= j < branches.len() ==> #[trigger] currents[j] == CalculatedCurrent(
                self.currents[branches[j] as int],
            )
    }
}

impl<T: Copy> Solution<T> {
    /// Whether the solution has a voltage for the node of each terminal.
    pub fn covers(&self, terminals: &Nodes<T>) -> (covered: bool)
        ensures
            covered == self@.covers(terminals.0@),
    {
        let nodes = self.voltages_ref().len();
        let mut i: usize = 0;
        while i < terminals.0.len()
            invariant
                i <= terminals.0.len(),
                nodes == self@.voltages.len(),
                forall|k: int| 0 <= k < i ==> (#[trigger] terminals.0@[k]).index < nodes,
            decreases terminals.0.len() - i,
        {
            if terminals.0[i].index >= nodes {
                return false;
            }
            i += 1;
        }
        true
    }

    /// Publishes the solution to the elements, to all of them or to none:
    /// the voltage of its node to every terminal and, as `currents`, the
    /// currents of the voltage sources, whose branches stand in `branches`,
    /// in that order. Where the solution lacks a node or a branch, nothing
    /// is written and the error is `TopologyOutOfRange`.
    pub fn publish(
        &self,
        terminals: &mut Vec<Nodes<T>>,
        branches: &Vec<usize>,
        currents: &mut Vec<CalculatedCurrent<T>>,
    ) -> (published: Result<(), Error>)
        ensures
            self@.covers_all(old(terminals)@, branches@) ==> published is Ok && self@.shown_in(
                old(terminals)@,
                branches@,
                final(terminals)@,
                final(currents)@,
            ),
            !self@.covers_all(old(terminals)@, branches@) ==> published is Err && published->Err_0
                is TopologyOutOfRange && *final(terminals) == *old(terminals) && *final(currents)
                == *old(currents),
    {
        let mut i: usize = 0;
        while i < terminals.len()
            invariant
                i <= terminals.len(),
                *terminals == *old(terminals),
                *currents == *old(currents),
                forall|k: int| 0 <= k < i ==> self@.covers((#[trigger] terminals@[k]).0@),
            decreases terminals.len() - i,
        {
            if !self.covers(&terminals[i]) {
                return Err(Error::TopologyOutOfRange);
            }
            i += 1;
        }
        let all = self.currents_ref();
        let mut found: Vec<CalculatedCurrent<T>> = Vec::new();
        let mut j: usize = 0;
        while j < branches.len()
            invariant
                j <= branches.len(),
                *terminals == *old(terminals),
                *currents == *old(currents),
                all@ == self@.currents,
                found@.len() == j,
                forall|k: int| 0 <= k < j ==> (#[trigger] branches@[k]) < all@.len(),
                forall|k: int|
                    0 <= k < j ==> #[trigger] found@[k] == CalculatedCurrent(
                        self@.currents[branches@[k] as int],
                    ),
            decreases branches.len() - j,
        {
            if branches[j] >= all.len() {
                return Err(Error::TopologyOutOfRange);
            }
            found.push(CalculatedCurrent(all[branches[j]]));
            j += 1;
        }
        let mut i: usize = 0;
        while i < terminals.len()
            invariant
                i <= terminals.len(),
                terminals@.len() == old(terminals)@.len(),
                forall|k: int|
                    0 <= k < old(terminals)@.len() ==> self@.covers(
                        (#[trigger] old(terminals)@[k]).0@,
                    ),
                forall|k: int|
                    0 <= k < i ==> (#[trigger] terminals@[k]).0@ == self@.published(
                        old(terminals)@[k].0@,
                    ),
                forall|k: int| i <= k < terminals@.len() ==> terminals@[k] == old(terminals)@[k],
            decreases terminals.len() - i,
        {
            let _ = self.publish_voltages(&mut terminals[i]);
            i += 1;
        }
        *currents = found;
        Ok(())
    }
}

/// One step of the transient loop on the elements' state. The companions
/// are stamped into a copy of `template`, the copy is solved by `kernel`,
/// and the solution is published to the terminals and to the voltage
/// sources. Where any of this fails the step is skipped: the terminals and
/// the currents stay as they were.
pub fn step<T: Copy, K: FnOnce(&Equation<T>) -> Result<Vec<T>, String>>(
    template: &Equation<T>,
    companions: &Vec<Companion<T>>,
    kernel: K,
    terminals: &mut Vec<Nodes<T>>,
    branches: &Vec<usize>,
    currents: &mut Vec<CalculatedCurrent<T>>,
) -> (stepped: Result<Solution<T>, Error>)
    requires
        template@.well_formed(),
        forall|equation: &Equation<T>| call_requires(kernel, (equation,)),
    ensures
        stepped is Ok ==> {
            &&& template@.connects_all(companions@)
            &&& found_by(
                kernel,
                template@.stamp_companions(companions@),
                stepped->Ok_0@,
            )
            &&& stepped->Ok_0@.covers_all(old(terminals)@, branches@)
            &&& stepped->Ok_0@.shown_in(
                old(terminals)@,
                branches@,
                final(terminals)@,
                final(currents)@,
            )
        },
        stepped is Err ==> *final(terminals) == *old(terminals) && *final(currents) == *old(
            currents,
        ),
        !template@.connects_all(companions@) ==> stepped is Err && stepped->Err_0
            is TopologyOutOfRange,
        stepped is Err && template@.connects_all(companions@) ==> refused_by(
            kernel,
            template@.stamp_companions(companions@),
            stepped->Err_0,
        ) || (stepped->Err_0 is TopologyOutOfRange && exists|solution: SolutionView<T>|
            #[trigger] found_by(kernel, template@.stamp_companions(companions@), solution)
                && !solution.covers_all(old(terminals)@, branches@)),
{
    let equation = match step_equation(template, companions) {
        Ok(equation) => equation,
        Err(refused) => {
            return Err(refused);
        },
    };
    let solution = match equation.solve(kernel) {
        Ok(solution) => solution,
        Err(refused) => {
            return Err(refused);
        },
    };
    match solution.publish(terminals, branches, currents) {
        Ok(()) => Ok(solution),
        Err(refused) => Err(refused),
    }
}

/// The solver for a circuit with memory. It works on a static system that
/// it is lent and never changes: what a step stamps goes into a copy that
/// lasts for that step alone. It counts the steps it has taken, and those
/// among them that failed and were skipped.
#[derive(Debug, Clone, Copy, PartialEq, Eq)]
pub struct System {
    pub steps: usize,
    pub skipped: usize,
}

impl System {
    /// A solver that has taken no step.
    pub fn new() -> (system: Self)
        ensures
            system == (System { steps: 0, skipped: 0 }),
    {
        System { steps: 0, skipped: 0 }
    }

    /// The count after one more, as far as a machine number counts.
    pub open spec fn next(count: usize) -> usize {
        if count < usize::MAX {
            (count + 1) as usize
        } else {
            count
        }
    }

    /// Takes one step, as `step` does, and counts it: as a step in any
    /// case, and as a skipped one where it failed. The template is the same
    /// after the step as before it, whatever the step came to.
    pub fn run<T: Copy, K: FnOnce(&Equation<T>) -> Result<Vec<T>, String>>(
        &mut self,
        template: &Equation<T>,
        companions: &Vec<Companion<T>>,
        kernel: K,
        terminals: &mut Vec<Nodes<T>>,
        branches: &Vec<usize>,
        currents: &mut Vec<CalculatedCurrent<T>>,
    ) -> (stepped: Result<Solution<T>, Error>)
        requires
            template@.well_formed(),
            forall|equation: &Equation<T>| call_requires(kernel, (equation,)),
        ensures
            final(self).steps == Self::next(old(self).steps),
            final(self).skipped == if stepped is Err {
                Self::next(old(self).skipped)
            } else {
                old(self).skipped
            },
            stepped is Ok ==> {
                &&& template@.connects_all(companions@)
                &&& found_by(
                    kernel,
                    template@.stamp_companions(companions@),
                    stepped->Ok_0@,
                )
                &&& stepped->Ok_0@.covers_all(old(terminals)@, branches@)
                &&& stepped->Ok_0@.shown_in(
                    old(terminals)@,
                    branches@,
                    final(terminals)@,
                    final(currents)@,
                )
            },
            stepped is Err ==> *final(terminals) == *old(terminals) && *final(currents) == *old(
                currents,
            ),
            !template@.connects_all(companions@) ==> stepped is Err && stepped->Err_0
                is TopologyOutOfRange,
            stepped is Err && template@.connects_all(companions@) ==> refused_by(
                kernel,
                template@.stamp_companions(companions@),
                stepped->Err_0,
            ) || (stepped->Err_0 is TopologyOutOfRange && exists|solution: SolutionView<T>|
                #[trigger] found_by(kernel, template@.stamp_companions(companions@), solution)
                    && !solution.covers_all(old(terminals)@, branches@)),
    {
        let stepped = step(template, companions, kernel, terminals, branches, currents);
        if self.steps < usize::MAX {
            self.steps += 1;
        }
        if stepped.is_err() && self.skipped < usize::MAX {
            self.skipped += 1;
        }
        stepped
    }
}

impl Default for System {
    fn default() -> (system: Self)
        ensures
            system == (System { steps: 0, skipped: 0 }),
    {
        System::new()
    }
}

} // verus!

