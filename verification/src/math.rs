//! Numbers and operations on them.

pub mod complex;
pub mod derivative;
