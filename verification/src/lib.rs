//! Steady-state phasor analysis of AC networks by constraint assembly.
//!
//! The unknowns of a network, node voltages and branch currents, are
//! registered as vertices. Linear equality constraints over them are built
//! term by term and committed. The committed constraints compile to a dense
//! linear system with one extra unknown that is fixed to one and carries the
//! constant terms; a solver supplied by the caller solves it, and the solved
//! values are served from a cache until the next change.

pub mod alternating_current;
pub mod math;
pub mod matrixsolver;
pub mod util;
