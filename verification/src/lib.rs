//! Assembly of modified nodal analysis systems for linear circuits.
//!
//! The crate is generic in the scalar type `T` and never computes with it: it
//! records which entry of the system each circuit element contributes to, with
//! which sign and which quantity, and leaves the arithmetic to the caller.

pub mod elements;
pub mod quantity;
pub mod solver;
