//! Kernels over arrays.

pub mod comparison;
pub mod take;
