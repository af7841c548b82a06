//! Arrays of byte strings that all have one length.

use vstd::prelude::*;
use vstd::arithmetic::div_mod::{lemma_div_by_multiple, lemma_fundamental_div_mod, lemma_mod_multiples_basic};
use crate::array::{mask_fits, mask_view, null_count_of};
use crate::bitmap::Bitmap;
use crate::buffer::Buffer;
use crate::datatypes::DataType;

pub mod mutable;

verus! {

/// `n` zero bytes.
pub open spec fn zeros(n: nat) -> Seq<u8> {
    Seq::new(n, |i: int| 0u8)
}

/// The bytes of element `i` among elements of `size` bytes each.
pub open spec fn slot(values: Seq<u8>, size: nat, i: int) -> Seq<u8> {
    values.subrange(i * size, (i + 1) * size)
}

/// Whether `values` and `validity` form an array of elements of `size` bytes.
pub open spec fn well_formed(size: nat, values: Seq<u8>, validity: Option<Seq<bool>>) -> bool {
    &&& size > 0
    &&& values.len() % size == 0
    &&& mask_fits(values.len() / size, validity)
}

/// `count` elements of `size` bytes fill `count * size` bytes exactly.
pub proof fn lemma_slots(count: nat, size: nat)
    requires
        size > 0,
    ensures
        (count * size) % size == 0,
        (count * size) / size == count,
{
    lemma_mod_multiples_basic(count as int, size as int);
    lemma_div_by_multiple(count as int, size as int);
}

/// Bytes that divide into whole elements are as many as the elements take.
pub proof fn lemma_whole_slots(total: nat, size: nat)
    requires
        size > 0,
        total % size == 0,
    ensures
        total == (total / size) * size,
{
    lemma_fundamental_div_mod(total as int, size as int);
    assert(size * (total / size) == (total / size) * size) by (nonlinear_arith);
}

/// One more element after whole elements makes one more whole element.
pub proof fn lemma_one_more_slot(total: nat, size: nat)
    requires
        size > 0,
        total % size == 0,
    ensures
        (total + size) % size == 0,
        (total + size) / size == total / size + 1,
{
    lemma_whole_slots(total, size);
    let count = total / size;
    assert((count + 1) * size == count * size + size) by (nonlinear_arith);
    lemma_slots(count + 1, size);
}

/// Element `i` of whole elements lies within their bytes.
pub proof fn lemma_slot_in_range(total: nat, size: nat, i: nat)
    requires
        size > 0,
        total % size == 0,
        i < total / size,
    ensures
        i * size <= (i + 1) * size <= total,
        (i + 1) * size - i * size == size,
{
    lemma_whole_slots(total, size);
    let count = total / size;
    assert((i + 1) * size <= count * size) by (nonlinear_arith)
        requires
            i + 1 <= count,
    ;
    assert((i + 1) * size == i * size + size) by (nonlinear_arith);
}

/// An immutable array of byte strings of one length, some of whose slots may
/// be null.
#[derive(Debug)]
pub struct FixedSizeBinaryArray {
    size: usize,
    data_type: DataType,
    values: Buffer<u8>,
    validity: Option<Bitmap>,
}

impl FixedSizeBinaryArray {
    #[verifier::type_invariant]
    spec fn inv(self) -> bool {
        &&& well_formed(self.size as nat, self.values@, mask_view(self.validity))
        &&& self.data_type == DataType::FixedSizeBinary(self.size)
    }

    /// Bytes per element.
    pub closed spec fn size_view(&self) -> nat {
        self.size as nat
    }

    /// The bytes of all elements, null slots included.
    pub closed spec fn values_view(&self) -> Seq<u8> {
        self.values@
    }

    /// The validity mask, where there is one.
    pub closed spec fn validity_view(&self) -> Option<Seq<bool>> {
        mask_view(self.validity)
    }

    /// Number of elements.
    pub open spec fn len_view(&self) -> nat {
        self.values_view().len() / self.size_view()
    }

    /// An array of the given parts. The type tag gives the element size.
    pub fn from_data(data_type: DataType, values: Buffer<u8>, validity: Option<Bitmap>) -> (r: Self)
        requires
            data_type is FixedSizeBinary,
            well_formed(data_type->FixedSizeBinary_0 as nat, values@, mask_view(validity)),
        ensures
            r.size_view() == data_type->FixedSizeBinary_0,
            r.values_view() == values@,
            r.validity_view() == mask_view(validity),
    {
        let size = match data_type {
            DataType::FixedSizeBinary(size) => size,
            _ => 1,
        };
        FixedSizeBinaryArray { size, data_type, values, validity }
    }

    /// Number of elements.
    pub fn len(&self) -> (r: usize)
        ensures
            r == self.len_view(),
    {
        proof {
            use_type_invariant(self);
        }
        self.values.len() / self.size
    }

    /// Bytes per element, which is never zero.
    pub fn size(&self) -> (r: usize)
        ensures
            r == self.size_view(),
            r > 0,
    {
        proof {
            use_type_invariant(self);
        }
        self.size
    }

    /// The logical type tag.
    pub fn data_type(&self) -> (r: &DataType)
        ensures
            *r == DataType::FixedSizeBinary(self.size_view() as usize),
    {
        proof {
            use_type_invariant(self);
        }
        &self.data_type
    }

    /// The validity mask, which covers every element where it is present.
    pub fn validity(&self) -> (r: &Option<Bitmap>)
        ensures
            mask_view(*r) == self.validity_view(),
            well_formed(self.size_view(), self.values_view(), self.validity_view()),
    {
        proof {
            use_type_invariant(self);
        }
        &self.validity
    }

    /// Number of null slots.
    pub fn null_count(&self) -> (r: usize)
        ensures
            r == null_count_of(self.validity_view()),
    {
        match &self.validity {
            Some(bitmap) => bitmap.null_count(),
            None => 0,
        }
    }

    /// The bytes of element `i`.
    pub fn value(&self, i: usize) -> (r: &[u8])
        requires
            i < self.len_view(),
        ensures
            r@ == slot(self.values_view(), self.size_view(), i as int),
            r@.len() == self.size_view(),
    {
        proof {
            use_type_invariant(self);
            lemma_slot_in_range(self.values@.len(), self.size as nat, i as nat);
        }
        let bytes = self.values.as_slice();
        let _ = bytes.len();
        vstd::slice::slice_subrange(bytes, i * self.size, (i + 1) * self.size)
    }
}

} // verus!
