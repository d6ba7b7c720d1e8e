//! The adaptive state-space filter suite: a shared fixed-point Kalman
//! skeleton with regime detection, and the pattern-specific filters
//! built on it.

pub mod filter;
pub mod patterns;
pub mod matrix;
