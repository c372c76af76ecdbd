//! The solver for a circuit without memory: at every run the circuit is
//! assembled as it stands, solved, and the solution published.

use vstd::prelude::*;
use crate::elements::{CalculatedCurrent, Element, Nodes};
use crate::solver::equation::{
    found_by, refused_by, Equation, Error, Solution, SolutionView,
};
use crate::solver::stamp_static::{
    branch_count, build_static, has_dimensions, numbered, static_system,
};

verus! {

/// The branches of a system of `count` branches, in their order.
pub open spec fn all_branches(count: int) -> Seq<usize> {
    Seq::new(count as nat, |k: int| k as usize)
}

/// The numbers from 0 up to `count`, without `count`.
fn counted(count: usize) -> (numbers: Vec<usize>)
    ensures
        numbers@ == all_branches(count as int),
{
    let mut numbers: Vec<usize> = Vec::new();
    let mut k: usize = 0;
    while k < count
        invariant
            k <= count,
            numbers@.len() == k,
            forall|j: int| 0 <= j < k ==> numbers@[j] == j,
        decreases count - k,
    {
        numbers.push(k);
        k += 1;
    }
    assert(numbers@ =~= all_branches(count as int));
    numbers
}

/// Solves the circuit as it stands.
#[derive(Debug, Clone, Copy)]
pub struct System {}

impl System {
    /// A solver; it keeps nothing from one run to the next.
    pub fn new() -> (system: Self) {
        System {}
    }

    /// One run: numbers the branches, assembles the static system of
    /// `elements`, solves it by `kernel` and publishes the solution, the
    /// voltage of its node to every terminal and the currents of the
    /// branches, in the order of the branches, as `currents`. Where any of
    /// this fails nothing is published: the terminals and the currents stay
    /// as they were.
    pub fn run<T: Copy, K: FnOnce(&Equation<T>) -> Result<Vec<T>, String>>(
        &mut self,
        elements: &mut Vec<Element<T>>,
        kernel: K,
        terminals: &mut Vec<Nodes<T>>,
        currents: &mut Vec<CalculatedCurrent<T>>,
    ) -> (ran: Result<Solution<T>, Error>)
        requires
            forall|equation: &Equation<T>| call_requires(kernel, (equation,)),
        ensures
            has_dimensions(old(elements)@) ==> final(elements)@ == numbered(old(elements)@),
            !has_dimensions(old(elements)@) ==> final(elements)@ == old(elements)@ && ran is Err
                && ran->Err_0 is TopologyOutOfRange,
            ran is Ok ==> {
                &&& has_dimensions(old(elements)@)
                &&& found_by(kernel, static_system(old(elements)@), ran->Ok_0@)
                &&& ran->Ok_0@.covers_all(
                    old(terminals)@,
                    all_branches(branch_count(old(elements)@)),
                )
                &&& ran->Ok_0@.shown_in(
                    old(terminals)@,
                    all_branches(branch_count(old(elements)@)),
                    final(terminals)@,
                    final(currents)@,
                )
            },
            ran is Err ==> *final(terminals) == *old(terminals) && *final(currents) == *old(
                currents,
            ),
            ran is Err && has_dimensions(old(elements)@) ==> refused_by(
                kernel,
                static_system(old(elements)@),
                ran->Err_0,
            ) || (ran->Err_0 is TopologyOutOfRange && exists|solution: SolutionView<T>|
                #[trigger] found_by(kernel, static_system(old(elements)@), solution)
                    && !solution.covers_all(
                    old(terminals)@,
                    all_branches(branch_count(old(elements)@)),
                )),
    {
        let equation = match build_static(elements) {
            Ok(equation) => equation,
            Err(refused) => {
                return Err(refused);
            },
        };
        let solution = match equation.solve(kernel) {
            Ok(solution) => solution,
            Err(refused) => {
                return Err(refused);
            },
        };
        let branches = counted(solution.currents_ref().len());
        match solution.publish(terminals, &branches, currents) {
            Ok(()) => Ok(solution),
            Err(refused) => Err(refused),
        }
    }
}

impl Default for System {
    fn default() -> (system: Self) {
        System::new()
    }
}

} // verus!
