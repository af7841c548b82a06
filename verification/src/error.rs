//! The error values of the kernels and builders.

use vstd::prelude::*;

verus! {

/// What a kernel or a builder reports when it refuses its input.
#[derive(Debug)]
pub enum ArrowError {
    /// An index is outside the element range of the array it selects from,
    /// or cannot be turned into a memory offset.
    KeyOverflowError,
    /// A value does not have the shape that a builder was created for.
    InvalidArgumentError(String),
}

} // verus!
