//! Optimization passes over the MIR.

pub mod constant_propagation;
pub mod inlining;
