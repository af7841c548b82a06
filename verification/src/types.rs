//! The scalar types that arrays hold, and those that can address a slot.

use vstd::prelude::*;

verus! {

/// A fixed-width, copyable scalar with a default value, which fills null slots.
pub trait NativeType: Copy + Sized {
    /// The value that stands in a slot without a meaningful value.
    spec fn default_value() -> Self;

    /// The logical type of an array of this scalar.
    spec fn data_type_of() -> crate::datatypes::DataType;

    fn default_native() -> (r: Self)
        ensures
            r == Self::default_value(),
    ;

    fn data_type() -> (r: crate::datatypes::DataType)
        ensures
            r == Self::data_type_of(),
    ;
}

/// An integer that can address a slot of an array.
pub trait Index: NativeType {
    /// The integer that the index stands for.
    spec fn as_int(self) -> int;

    /// The index as a memory offset: `None` where it is negative or too large
    /// for the platform.
    fn to_usize(&self) -> (r: Option<usize>)
        ensures
            r == if 0 <= self.as_int() <= usize::MAX {
                Some(self.as_int() as usize)
            } else {
                None::<usize>
            },
    ;
}

impl NativeType for u8 {
    open spec fn default_value() -> u8 { 0u8 }
    open spec fn data_type_of() -> crate::datatypes::DataType { crate::datatypes::DataType::UInt8 }
    fn default_native() -> u8 { 0u8 }
    fn data_type() -> crate::datatypes::DataType { crate::datatypes::DataType::UInt8 }
}

impl NativeType for u16 {
    open spec fn default_value() -> u16 { 0u16 }
    open spec fn data_type_of() -> crate::datatypes::DataType { crate::datatypes::DataType::UInt16 }
    fn default_native() -> u16 { 0u16 }
    fn data_type() -> crate::datatypes::DataType { crate::datatypes::DataType::UInt16 }
}

impl NativeType for u32 {
    open spec fn default_value() -> u32 { 0u32 }
    open spec fn data_type_of() -> crate::datatypes::DataType { crate::datatypes::DataType::UInt32 }
    fn default_native() -> u32 { 0u32 }
    fn data_type() -> crate::datatypes::DataType { crate::datatypes::DataType::UInt32 }
}

impl NativeType for u64 {
    open spec fn default_value() -> u64 { 0u64 }
    open spec fn data_type_of() -> crate::datatypes::DataType { crate::datatypes::DataType::UInt64 }
    fn default_native() -> u64 { 0u64 }
    fn data_type() -> crate::datatypes::DataType { crate::datatypes::DataType::UInt64 }
}

impl NativeType for i8 {
    open spec fn default_value() -> i8 { 0i8 }
    open spec fn data_type_of() -> crate::datatypes::DataType { crate::datatypes::DataType::Int8 }
    fn default_native() -> i8 { 0i8 }
    fn data_type() -> crate::datatypes::DataType { crate::datatypes::DataType::Int8 }
}

impl NativeType for i16 {
    open spec fn default_value() -> i16 { 0i16 }
    open spec fn data_type_of() -> crate::datatypes::DataType { crate::datatypes::DataType::Int16 }
    fn default_native() -> i16 { 0i16 }
    fn data_type() -> crate::datatypes::DataType { crate::datatypes::DataType::Int16 }
}

impl NativeType for i32 {
    open spec fn default_value() -> i32 { 0i32 }
    open spec fn data_type_of() -> crate::datatypes::DataType { crate::datatypes::DataType::Int32 }
    fn default_native() -> i32 { 0i32 }
    fn data_type() -> crate::datatypes::DataType { crate::datatypes::DataType::Int32 }
}

impl NativeType for i64 {
    open spec fn default_value() -> i64 { 0i64 }
    open spec fn data_type_of() -> crate::datatypes::DataType { crate::datatypes::DataType::Int64 }
    fn default_native() -> i64 { 0i64 }
    fn data_type() -> crate::datatypes::DataType { crate::datatypes::DataType::Int64 }
}

impl NativeType for i128 {
    open spec fn default_value() -> i128 { 0i128 }
    open spec fn data_type_of() -> crate::datatypes::DataType { crate::datatypes::DataType::Int128 }
    fn default_native() -> i128 { 0i128 }
    fn data_type() -> crate::datatypes::DataType { crate::datatypes::DataType::Int128 }
}

impl Index for u32 {
    open spec fn as_int(self) -> int { self as int }

    fn to_usize(&self) -> Option<usize> {
        let wide: u64 = *self as u64;
        if wide <= usize::MAX as u64 {
            Some(wide as usize)
        } else {
            None
        }
    }
}

impl Index for u64 {
    open spec fn as_int(self) -> int { self as int }

    fn to_usize(&self) -> Option<usize> {
        if *self <= usize::MAX as u64 {
            Some(*self as usize)
        } else {
            None
        }
    }
}

impl Index for i32 {
    open spec fn as_int(self) -> int { self as int }

    fn to_usize(&self) -> Option<usize> {
        if *self < 0 {
            None
        } else {
            let wide: u64 = *self as u64;
            if wide <= usize::MAX as u64 {
                Some(wide as usize)
            } else {
                None
            }
        }
    }
}

impl Index for i64 {
    open spec fn as_int(self) -> int { self as int }

    fn to_usize(&self) -> Option<usize> {
        if *self < 0 {
            None
        } else {
            let wide: u64 = *self as u64;
            if wide <= usize::MAX as u64 {
                Some(wide as usize)
            } else {
                None
            }
        }
    }
}

} // verus!
