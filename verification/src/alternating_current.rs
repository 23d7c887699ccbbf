//! The constraint-based circuit calculator and its parts.

pub mod ac_system;
pub mod arena;
pub mod commit_order;
pub mod constraint;
pub mod freshness;
pub mod laws;
pub mod matrix;
pub mod model;
pub mod vertex;
