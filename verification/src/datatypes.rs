//! Logical type tags of arrays.

use vstd::prelude::*;

verus! {

/// The logical type of an array's elements.
#[derive(Debug, Clone, Copy, PartialEq, Eq, Structural)]
pub enum DataType {
    Boolean,
    Int8,
    Int16,
    Int32,
    Int64,
    Int128,
    UInt8,
    UInt16,
    UInt32,
    UInt64,
    /// Byte strings of one fixed length, given in bytes.
    FixedSizeBinary(usize),
}

} // verus!
