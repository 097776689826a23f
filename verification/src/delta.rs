//! Matching by longest common subsequence.

pub mod lcs;
