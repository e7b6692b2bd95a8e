//! Numerical methods.

pub mod polynomial;
