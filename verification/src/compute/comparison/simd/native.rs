//! The eight-lane vector on plain scalars, lane after lane.

use vstd::prelude::*;
use crate::compute::comparison::simd::{
    bitmask, lane_bit, lanes_eq, lanes_lt, lanes_not, lemma_bitmask_bits, padded, Simd8,
};

verus! {

/// Eight values of one scalar type.
#[derive(Debug, Clone, Copy)]
pub struct Lanes8<T: Simd8> {
    lanes: [T; 8],
}

impl<T: Simd8> View for Lanes8<T> {
    type V = Seq<T>;

    closed spec fn view(&self) -> Seq<T> {
        self.lanes@
    }
}

/// Lane `i` of a partial chunk: its value `i`, or the padding past its end.
fn lane_or<T: Simd8>(v: &[T], i: usize, pad: T) -> (r: T)
    requires
        i < 8,
    ensures
        r == padded(v@, pad)[i as int],
{
    if i < v.len() {
        v[i]
    } else {
        pad
    }
}

/// Packs eight flags into a mask, flag `i` into bit `i`.
fn pack(flags: [bool; 8]) -> (r: u8)
    ensures
        r == bitmask(flags@),
        forall|i: int| 0 <= i < 8 ==> lane_bit(r, i) == flags@[i],
{
    proof {
        lemma_bitmask_bits(flags@);
    }
    let mut mask: u8 = 0;
    if flags[0] {
        mask = mask + 1;
    }
    if flags[1] {
        mask = mask + 2;
    }
    if flags[2] {
        mask = mask + 4;
    }
    if flags[3] {
        mask = mask + 8;
    }
    if flags[4] {
        mask = mask + 16;
    }
    if flags[5] {
        mask = mask + 32;
    }
    if flags[6] {
        mask = mask + 64;
    }
    if flags[7] {
        mask = mask + 128;
    }
    mask
}

impl<T: Simd8> Lanes8<T> {
    /// Loads eight contiguous values.
    pub fn from_chunk(v: &[T]) -> (r: Self)
        requires
            v@.len() == 8,
        ensures
            r@ == v@,
            r@.len() == 8,
    {
        let r = Lanes8 { lanes: [v[0], v[1], v[2], v[3], v[4], v[5], v[6], v[7]] };
        assert(r@ =~= v@);
        r
    }

    /// Loads the values that there are into the low lanes and `remaining`
    /// into the others.
    pub fn from_incomplete_chunk(v: &[T], remaining: T) -> (r: Self)
        ensures
            r@ == padded(v@, remaining),
            r@.len() == 8,
    {
        let r = Lanes8 {
            lanes: [
                lane_or(v, 0, remaining),
                lane_or(v, 1, remaining),
                lane_or(v, 2, remaining),
                lane_or(v, 3, remaining),
                lane_or(v, 4, remaining),
                lane_or(v, 5, remaining),
                lane_or(v, 6, remaining),
                lane_or(v, 7, remaining),
            ],
        };
        assert(r@ =~= padded(v@, remaining));
        r
    }

    /// Bit `i` is set where lane `i` equals lane `i` of `other`.
    pub fn eq(self, other: Self) -> (r: u8)
        ensures
            r == bitmask(lanes_eq(self@, other@)),
            forall|i: int| 0 <= i < 8 ==> lane_bit(r, i) == (self@[i] == other@[i]),
    {
        let a = &self.lanes;
        let b = &other.lanes;
        let flags = [
            a[0].is_eq(b[0]),
            a[1].is_eq(b[1]),
            a[2].is_eq(b[2]),
            a[3].is_eq(b[3]),
            a[4].is_eq(b[4]),
            a[5].is_eq(b[5]),
            a[6].is_eq(b[6]),
            a[7].is_eq(b[7]),
        ];
        assert(flags@ =~= lanes_eq(self@, other@));
        pack(flags)
    }

    /// Bit `i` is set where lane `i` differs from lane `i` of `other`.
    pub fn neq(self, other: Self) -> (r: u8)
        ensures
            r == bitmask(lanes_not(lanes_eq(self@, other@))),
            forall|i: int| 0 <= i < 8 ==> lane_bit(r, i) == (self@[i] != other@[i]),
    {
        let a = &self.lanes;
        let b = &other.lanes;
        let flags = [
            !a[0].is_eq(b[0]),
            !a[1].is_eq(b[1]),
            !a[2].is_eq(b[2]),
            !a[3].is_eq(b[3]),
            !a[4].is_eq(b[4]),
            !a[5].is_eq(b[5]),
            !a[6].is_eq(b[6]),
            !a[7].is_eq(b[7]),
        ];
        assert(flags@ =~= lanes_not(lanes_eq(self@, other@)));
        pack(flags)
    }

    /// Bit `i` is set where lane `i` is below lane `i` of `other`.
    pub fn lt(self, other: Self) -> (r: u8)
        ensures
            r == bitmask(lanes_lt(self@, other@)),
            forall|i: int| 0 <= i < 8 ==> lane_bit(r, i) == self@[i].below(other@[i]),
    {
        let a = &self.lanes;
        let b = &other.lanes;
        let flags = [
            a[0].is_lt(b[0]),
            a[1].is_lt(b[1]),
            a[2].is_lt(b[2]),
            a[3].is_lt(b[3]),
            a[4].is_lt(b[4]),
            a[5].is_lt(b[5]),
            a[6].is_lt(b[6]),
            a[7].is_lt(b[7]),
        ];
        assert(flags@ =~= lanes_lt(self@, other@));
        pack(flags)
    }

    /// Bit `i` is set where lane `i` is not above lane `i` of `other`.
    pub fn lt_eq(self, other: Self) -> (r: u8)
        ensures
            r == bitmask(lanes_not(lanes_lt(other@, self@))),
            forall|i: int| 0 <= i < 8 ==> lane_bit(r, i) == !other@[i].below(self@[i]),
    {
        let a = &self.lanes;
        let b = &other.lanes;
        let flags = [
            !b[0].is_lt(a[0]),
            !b[1].is_lt(a[1]),
            !b[2].is_lt(a[2]),
            !b[3].is_lt(a[3]),
            !b[4].is_lt(a[4]),
            !b[5].is_lt(a[5]),
            !b[6].is_lt(a[6]),
            !b[7].is_lt(a[7]),
        ];
        assert(flags@ =~= lanes_not(lanes_lt(other@, self@)));
        pack(flags)
    }

    /// Bit `i` is set where lane `i` is above lane `i` of `other`.
    pub fn gt(self, other: Self) -> (r: u8)
        ensures
            r == bitmask(lanes_lt(other@, self@)),
            forall|i: int| 0 <= i < 8 ==> lane_bit(r, i) == other@[i].below(self@[i]),
    {
        other.lt(self)
    }

    /// Bit `i` is set where lane `i` is not below lane `i` of `other`.
    pub fn gt_eq(self, other: Self) -> (r: u8)
        ensures
            r == bitmask(lanes_not(lanes_lt(self@, other@))),
            forall|i: int| 0 <= i < 8 ==> lane_bit(r, i) == !self@[i].below(other@[i]),
    {
        other.lt_eq(self)
    }
}

} // verus!
