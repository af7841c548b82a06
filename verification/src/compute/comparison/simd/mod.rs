//! Eight values at a time: loads of full and partial chunks, and comparisons
//! that answer with one bit per lane.

use vstd::prelude::*;
use crate::types::NativeType;

pub mod native;

verus! {

/// The weight of lane `i` in a bitmask: two to the power `i`.
pub open spec fn lane_weight(i: int) -> int {
    if i == 0 {
        1
    } else if i == 1 {
        2
    } else if i == 2 {
        4
    } else if i == 3 {
        8
    } else if i == 4 {
        16
    } else if i == 5 {
        32
    } else if i == 6 {
        64
    } else {
        128
    }
}

/// Whether bit `i` of `mask` is set.
pub open spec fn lane_bit(mask: u8, i: int) -> bool {
    (mask as int / lane_weight(i)) % 2 == 1
}

/// The weight of lane `i` where `flags` holds `true` for it, else nothing.
pub open spec fn lane_share(flags: Seq<bool>, i: int) -> int {
    if flags[i] {
        lane_weight(i)
    } else {
        0
    }
}

/// The mask whose bit `i` is set where `flags[i]` holds, for eight flags.
pub open spec fn bitmask(flags: Seq<bool>) -> int {
    lane_share(flags, 0) + lane_share(flags, 1) + lane_share(flags, 2) + lane_share(flags, 3)
        + lane_share(flags, 4) + lane_share(flags, 5) + lane_share(flags, 6) + lane_share(
        flags,
        7,
    )
}

/// A bitmask fits eight bits, and its bit `i` answers for lane `i`.
pub proof fn lemma_bitmask_bits(flags: Seq<bool>)
    requires
        flags.len() == 8,
    ensures
        0 <= bitmask(flags) < 256,
        forall|i: int| 0 <= i < 8 ==> lane_bit(bitmask(flags) as u8, i) == flags[i],
{
    let m = bitmask(flags);
    assert(0 <= m < 256);
    assert(lane_bit(m as u8, 0) == flags[0]);
    assert(lane_bit(m as u8, 1) == flags[1]);
    assert(lane_bit(m as u8, 2) == flags[2]);
    assert(lane_bit(m as u8, 3) == flags[3]);
    assert(lane_bit(m as u8, 4) == flags[4]);
    assert(lane_bit(m as u8, 5) == flags[5]);
    assert(lane_bit(m as u8, 6) == flags[6]);
    assert(lane_bit(m as u8, 7) == flags[7]);
}

/// Eight lanes loaded from a chunk of fewer values: the values in the low
/// lanes, `pad` in the others.
pub open spec fn padded<T>(chunk: Seq<T>, pad: T) -> Seq<T> {
    Seq::new(
        8,
        |i: int|
            if i < chunk.len() {
                chunk[i]
            } else {
                pad
            },
    )
}

/// Lane by lane, whether the lanes of `a` and `b` are equal.
pub open spec fn lanes_eq<T>(a: Seq<T>, b: Seq<T>) -> Seq<bool> {
    Seq::new(8, |i: int| a[i] == b[i])
}

/// Lane by lane, whether the lane of `a` is below that of `b`.
pub open spec fn lanes_lt<T: Simd8>(a: Seq<T>, b: Seq<T>) -> Seq<bool> {
    Seq::new(8, |i: int| a[i].below(b[i]))
}

/// Lane by lane, the opposite of `flags`.
pub open spec fn lanes_not(flags: Seq<bool>) -> Seq<bool> {
    Seq::new(8, |i: int| !flags[i])
}

/// A partial chunk compared for equality with eight copies of its padding
/// answers `true` in every padded lane, and in a loaded lane exactly where
/// the loaded value is the padding.
pub proof fn lemma_padding_compares_equal<T>(chunk: Seq<T>, pad: T, i: int)
    requires
        0 <= i < 8,
    ensures
        lane_bit(
            bitmask(lanes_eq(padded(chunk, pad), Seq::new(8, |j: int| pad))) as u8,
            i,
        ) == (i >= chunk.len() || chunk[i] == pad),
{
    lemma_bitmask_bits(lanes_eq(padded(chunk, pad), Seq::new(8, |j: int| pad)));
}

/// A native scalar that can be compared lane by lane.
pub trait Simd8: NativeType {
    /// The strict order of the scalar.
    spec fn below(self, other: Self) -> bool;

    fn is_eq(self, other: Self) -> (r: bool)
        ensures
            r == (self == other),
    ;

    fn is_lt(self, other: Self) -> (r: bool)
        ensures
            r == self.below(other),
    ;
}

impl Simd8 for u8 {
    open spec fn below(self, other: u8) -> bool { self < other }
    fn is_eq(self, other: u8) -> bool { self == other }
    fn is_lt(self, other: u8) -> bool { self < other }
}

impl Simd8 for u16 {
    open spec fn below(self, other: u16) -> bool { self < other }
    fn is_eq(self, other: u16) -> bool { self == other }
    fn is_lt(self, other: u16) -> bool { self < other }
}

impl Simd8 for u32 {
    open spec fn below(self, other: u32) -> bool { self < other }
    fn is_eq(self, other: u32) -> bool { self == other }
    fn is_lt(self, other: u32) -> bool { self < other }
}

impl Simd8 for u64 {
    open spec fn below(self, other: u64) -> bool { self < other }
    fn is_eq(self, other: u64) -> bool { self == other }
    fn is_lt(self, other: u64) -> bool { self < other }
}

impl Simd8 for i8 {
    open spec fn below(self, other: i8) -> bool { self < other }
    fn is_eq(self, other: i8) -> bool { self == other }
    fn is_lt(self, other: i8) -> bool { self < other }
}

impl Simd8 for i16 {
    open spec fn below(self, other: i16) -> bool { self < other }
    fn is_eq(self, other: i16) -> bool { self == other }
    fn is_lt(self, other: i16) -> bool { self < other }
}

impl Simd8 for i32 {
    open spec fn below(self, other: i32) -> bool { self < other }
    fn is_eq(self, other: i32) -> bool { self == other }
    fn is_lt(self, other: i32) -> bool { self < other }
}

impl Simd8 for i64 {
    open spec fn below(self, other: i64) -> bool { self < other }
    fn is_eq(self, other: i64) -> bool { self == other }
    fn is_lt(self, other: i64) -> bool { self < other }
}

impl Simd8 for i128 {
    open spec fn below(self, other: i128) -> bool { self < other }
    fn is_eq(self, other: i128) -> bool { self == other }
    fn is_lt(self, other: i128) -> bool { self < other }
}

} // verus!
