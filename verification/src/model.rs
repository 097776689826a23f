//! The mathematical model that the contracts of this crate speak of.

pub mod op;
pub mod greedy;
pub mod dedup;
pub mod apply;
pub mod wire;
pub mod laws;
