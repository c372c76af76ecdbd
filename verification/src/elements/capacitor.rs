//! Capacitors and their companion models.

use vstd::prelude::*;
use crate::quantity::Quantity;

verus! {

pub const NAME: &'static str = "Capacitor";

/// The equivalent circuit that stands for a capacitor during one step.
#[derive(Debug, Clone, Copy, PartialEq, Eq)]
pub enum CompanionModel {
    Norton,
    Thevenin,
}

/// The rule by which a capacitor is carried from one step to the next.
#[derive(Debug, Clone, Copy, PartialEq, Eq)]
pub enum IntegrationMethod {
    Trapezoidal,
    ForwardEuler,
    BackwardEuler,
}

/// What stands for a capacitor during one step: a conductance between its
/// terminals and, beside it, a source of the current that carries the
/// capacitor's history.
#[derive(Debug, PartialEq)]
pub struct Companion<T> {
    pub conductance: T,
    pub current: T,
    pub node_indexes: (usize, usize),
}

/// A capacitance between two nodes, with the current that its companion
/// carries over from the step before.
#[derive(Debug)]
pub struct Capacitor<T> {
    pub capacitance: T,
    pub node_indexes: (usize, usize),
    pub carried_current: Quantity<T>,
    pub companion_model: CompanionModel,
    pub integration_method: IntegrationMethod,
}

impl<T: Copy> Capacitor<T> {
    /// Whether no step has been taken yet: nothing is carried over.
    pub open spec fn fresh(&self) -> bool {
        self.carried_current == Quantity::<T>::Zero
    }

    /// A capacitor of `capacitance` between the nodes `node_indexes` that
    /// no step has touched: a Norton companion under the trapezoidal rule,
    /// which is the one model the solver stamps.
    pub fn new(capacitance: T, node_indexes: (usize, usize)) -> (capacitor: Self)
        ensures
            capacitor.capacitance == capacitance,
            capacitor.node_indexes == node_indexes,
            capacitor.fresh(),
            capacitor.companion_model == CompanionModel::Norton,
            capacitor.integration_method == IntegrationMethod::Trapezoidal,
    {
        Capacitor {
            capacitance,
            node_indexes,
            carried_current: Quantity::Zero,
            companion_model: CompanionModel::Norton,
            integration_method: IntegrationMethod::Trapezoidal,
        }
    }

    /// The current carried over from the step before.
    pub fn carried_current(&self) -> (current: Quantity<T>)
        ensures
            current == self.carried_current,
    {
        self.carried_current
    }

    /// The companion of this capacitor for one step: the conductance
    /// `conductance` between the capacitor's terminals, beside the source
    /// of `current`.
    pub fn companion(&self, conductance: T, current: T) -> (companion: Companion<T>)
        ensures
            companion == (Companion { conductance, current, node_indexes: self.node_indexes }),
    {
        Companion { conductance, current, node_indexes: self.node_indexes }
    }

    /// Ends a step: `derived`, the current that the step found through the
    /// capacitor, is what the next step starts from.
    pub fn carry(&mut self, derived: T)
        ensures
            final(self).carried_current == Quantity::Value(derived),
            !final(self).fresh(),
            final(self).capacitance == old(self).capacitance,
            final(self).node_indexes == old(self).node_indexes,
            final(self).companion_model == old(self).companion_model,
            final(self).integration_method == old(self).integration_method,
    {
        self.carried_current = Quantity::Value(derived);
    }
}

impl<T: Copy> Clone for Capacitor<T> {
    fn clone(&self) -> (copy: Self)
        ensures
            copy == *self,
    {
        *self
    }
}

impl<T: Copy> Copy for Capacitor<T> {
}

impl<T: Copy> Clone for Companion<T> {
    fn clone(&self) -> (copy: Self)
        ensures
            copy == *self,
    {
        *self
    }
}

impl<T: Copy> Copy for Companion<T> {
}

} // verus!
