//! Signed symbolic quantities: what a stamp adds to an entry of the system.

use vstd::prelude::*;

verus! {

/// Whether a contribution is added to an entry or taken from it.
#[derive(Debug, Clone, Copy, PartialEq, Eq)]
pub enum Sign {
    Plus,
    Minus,
}

/// A number that the crate carries without computing it: zero, one, a value
/// of the caller's scalar type, or the reciprocal of such a value.
#[derive(Debug, PartialEq)]
pub enum Quantity<T> {
    Zero,
    One,
    Value(T),
    Reciprocal(T),
}

/// One summand of an entry: a quantity and the sign it enters with.
#[derive(Debug, PartialEq)]
pub struct Term<T> {
    pub sign: Sign,
    pub quantity: Quantity<T>,
}

impl<T: Copy> Term<T> {
    /// The term `+quantity`.
    pub fn plus(quantity: Quantity<T>) -> (term: Self)
        ensures
            term == (Term { sign: Sign::Plus, quantity }),
    {
        Term { sign: Sign::Plus, quantity }
    }

    /// The term `-quantity`.
    pub fn minus(quantity: Quantity<T>) -> (term: Self)
        ensures
            term == (Term { sign: Sign::Minus, quantity }),
    {
        Term { sign: Sign::Minus, quantity }
    }
}

impl<T: Copy> Clone for Quantity<T> {
    fn clone(&self) -> (copy: Self)
        ensures
            copy == *self,
    {
        *self
    }
}

impl<T: Copy> Copy for Quantity<T> {
}

impl<T: Copy> Clone for Term<T> {
    fn clone(&self) -> (copy: Self)
        ensures
            copy == *self,
    {
        *self
    }
}

impl<T: Copy> Copy for Term<T> {
}

} // verus!
