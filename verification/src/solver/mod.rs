//! The equation-assembly engine and the packaging of its solutions.

pub mod linear_system;
pub mod equation;
pub mod stamp_static;
pub mod solve;
pub mod dense;
pub mod kirchhoff;
pub mod system;
