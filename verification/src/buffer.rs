//! Contiguous typed values: the growable `MutableBuffer` and the frozen,
//! shareable `Buffer`.

use vstd::prelude::*;
use std::sync::Arc;

verus! {

/// A growable run of values, exclusively owned.
#[derive(Debug)]
pub struct MutableBuffer<T> {
    data: Vec<T>,
}

impl<T> View for MutableBuffer<T> {
    type V = Seq<T>;

    closed spec fn view(&self) -> Seq<T> {
        self.data@
    }
}

impl<T: Copy> MutableBuffer<T> {
    /// The empty buffer.
    pub fn new() -> (r: Self)
        ensures
            r@ == Seq::<T>::empty(),
    {
        MutableBuffer { data: Vec::new() }
    }

    /// The empty buffer, with room reserved for `capacity` values.
    pub fn with_capacity(capacity: usize) -> (r: Self)
        ensures
            r@ == Seq::<T>::empty(),
    {
        MutableBuffer { data: Vec::with_capacity(capacity) }
    }

    /// A buffer that takes over `data`.
    pub fn from_vec(data: Vec<T>) -> (r: Self)
        ensures
            r@ == data@,
    {
        MutableBuffer { data }
    }

    /// Number of values held.
    pub fn len(&self) -> (r: usize)
        ensures
            r == self@.len(),
    {
        self.data.len()
    }

    /// Appends one value.
    pub fn push(&mut self, value: T)
        ensures
            final(self)@ == old(self)@.push(value),
    {
        self.data.push(value);
    }

    /// Appends the values of `other`, in order.
    pub fn extend_from_slice(&mut self, other: &[T])
        ensures
            final(self)@ == old(self)@ + other@,
    {
        let mut k: usize = 0;
        while k < other.len()
            invariant
                k <= other@.len(),
                self@ == old(self)@ + other@.take(k as int),
            decreases other@.len() - k,
        {
            self.data.push(other[k]);
            k += 1;
            assert(self@ =~= old(self)@ + other@.take(k as int));
        }
        assert(other@.take(k as int) =~= other@);
    }

    /// Appends `additional` copies of `value`.
    pub fn extend_constant(&mut self, additional: usize, value: T)
        ensures
            final(self)@ == old(self)@ + Seq::new(additional as nat, |i: int| value),
    {
        let mut k: usize = 0;
        while k < additional
            invariant
                k <= additional,
                self@ == old(self)@ + Seq::new(k as nat, |i: int| value),
            decreases additional - k,
        {
            self.data.push(value);
            k += 1;
            assert(self@ =~= old(self)@ + Seq::new(k as nat, |i: int| value));
        }
    }

    /// The values as a slice.
    pub fn as_slice(&self) -> (r: &[T])
        ensures
            r@ == self@,
    {
        self.data.as_slice()
    }

    /// The values as a slice that can be written through; the length stays.
    pub fn as_mut_slice(&mut self) -> (r: &mut [T])
        ensures
            r@ == old(self)@,
            final(r)@ == final(self)@,
    {
        self.data.as_mut_slice()
    }
}

/// Another handle to the allocation behind `handle`, made by `Arc::clone`:
/// the new handle stands for the same value, which is not copied.
#[verifier::external_body]
pub(crate) fn share<T>(handle: &Arc<Vec<T>>) -> (r: Arc<Vec<T>>)
    ensures
        r == *handle,
{
    handle.clone()
}

/// A frozen run of values: a window into an allocation that other buffers
/// may share.
#[derive(Debug)]
pub struct Buffer<T> {
    data: Arc<Vec<T>>,
    offset: usize,
    length: usize,
}

impl<T> View for Buffer<T> {
    type V = Seq<T>;

    closed spec fn view(&self) -> Seq<T> {
        self.data@.subrange(self.offset as int, self.offset + self.length)
    }
}

impl<T> Buffer<T> {
    #[verifier::type_invariant]
    spec fn inv(self) -> bool {
        self.offset + self.length <= self.data@.len()
    }
}

impl<T: Copy> Buffer<T> {
    /// Freezes a vector of values.
    pub fn from_vec(data: Vec<T>) -> (r: Self)
        ensures
            r@ == data@,
    {
        let length = data.len();
        let r = Buffer { data: Arc::new(data), offset: 0, length };
        assert(r@ =~= data@);
        r
    }

    /// Freezes a growable buffer, moving its values.
    pub fn from_mutable(buffer: MutableBuffer<T>) -> (r: Self)
        ensures
            r@ == buffer@,
    {
        Buffer::from_vec(buffer.data)
    }

    /// Number of values held.
    pub fn len(&self) -> (r: usize)
        ensures
            r == self@.len(),
    {
        proof {
            use_type_invariant(self);
        }
        self.length
    }

    /// The values as a slice.
    pub fn as_slice(&self) -> (r: &[T])
        ensures
            r@ == self@,
    {
        proof {
            use_type_invariant(self);
        }
        let _ = self.data.len();
        vstd::slice::slice_subrange(
            self.data.as_slice(),
            self.offset,
            self.offset + self.length,
        )
    }

    /// The `length` values from `offset` on, in a buffer that shares this
    /// one's allocation.
    pub fn slice(&self, offset: usize, length: usize) -> (r: Self)
        requires
            offset + length <= self@.len(),
        ensures
            r@ == self@.subrange(offset as int, offset + length),
    {
        proof {
            use_type_invariant(self);
        }
        let _ = self.data.len();
        let r = Buffer { data: share(&self.data), offset: self.offset + offset, length };
        assert(r@ =~= self@.subrange(offset as int, offset + length));
        r
    }
}

impl<T: Copy> Clone for Buffer<T> {
    fn clone(&self) -> (r: Self)
        ensures
            r@ == self@,
    {
        proof {
            use_type_invariant(self);
        }
        Buffer { data: share(&self.data), offset: self.offset, length: self.length }
    }
}

} // verus!
