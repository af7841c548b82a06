//! Building blocks of the comparison kernels.

pub mod simd;
