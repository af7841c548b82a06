//! The growable builder of fixed-size binary arrays.

use vstd::prelude::*;
use crate::array::fixed_size_binary::{
    lemma_one_more_slot, lemma_slot_in_range, lemma_slots, lemma_whole_slots, slot, well_formed,
    zeros,
    FixedSizeBinaryArray,
};
use crate::array::{is_null, mask_fits};
use crate::bitmap::{Bitmap, MutableBitmap};
use crate::buffer::{Buffer, MutableBuffer};
use crate::datatypes::DataType;
use crate::error::ArrowError;

verus! {

/// What an optional growable mask holds, as a plain sequence.
pub open spec fn mutable_mask_view(mask: Option<MutableBitmap>) -> Option<Seq<bool>> {
    match mask {
        Some(bitmap) => Some(bitmap@),
        None => None,
    }
}

/// What the builder says of an element of the wrong length.
pub open spec fn wrong_length_message() -> Seq<char> {
    "FixedSizeBinaryArray requires every item to be of its length"@
}

/// Whether an optional growable mask is in order.
pub open spec fn mutable_mask_wf(mask: Option<MutableBitmap>) -> bool {
    mask is Some ==> mask->0.wf()
}

/// What an optional byte string holds.
pub open spec fn item_view(item: Option<&[u8]>) -> Option<Seq<u8>> {
    match item {
        Some(bytes) => Some(bytes@),
        None => None,
    }
}

/// What a run of optional byte strings holds.
pub open spec fn items_view(items: Seq<Option<&[u8]>>) -> Seq<Option<Seq<u8>>> {
    Seq::new(items.len(), |i: int| item_view(items[i]))
}

/// The bytes after `item` is appended: its own, or zeros for a null.
pub open spec fn pushed_values(values: Seq<u8>, size: nat, item: Option<Seq<u8>>) -> Seq<u8> {
    match item {
        Some(bytes) => values + bytes,
        None => values + zeros(size),
    }
}

/// The mask after `item` is appended behind `len` elements. An absent mask
/// stays absent until the first null, which creates it with every earlier
/// element valid and the new one null.
pub open spec fn pushed_validity(validity: Option<Seq<bool>>, len: nat, item: Option<Seq<u8>>) -> Option<
    Seq<bool>,
> {
    match validity {
        Some(bits) => Some(bits.push(item is Some)),
        None => if item is Some {
            None
        } else {
            Some(Seq::new(len, |i: int| true).push(false))
        },
    }
}

/// The bytes of a builder into which `items` were appended in order.
pub open spec fn built_values(size: nat, items: Seq<Option<Seq<u8>>>) -> Seq<u8>
    decreases items.len(),
{
    if items.len() == 0 {
        Seq::empty()
    } else {
        pushed_values(built_values(size, items.drop_last()), size, items.last())
    }
}

/// The mask of a builder into which `items` were appended in order.
pub open spec fn built_validity(items: Seq<Option<Seq<u8>>>) -> Option<Seq<bool>>
    decreases items.len(),
{
    if items.len() == 0 {
        None
    } else {
        pushed_validity(
            built_validity(items.drop_last()),
            (items.len() - 1) as nat,
            items.last(),
        )
    }
}

/// Whether each byte string among `items` has `size` bytes.
pub open spec fn well_sized(size: nat, items: Seq<Option<Seq<u8>>>) -> bool {
    forall|i: int| 0 <= i < items.len() && items[i] is Some ==> (#[trigger] items[i])->0.len() == size
}

/// Appending items of the right size and reading the slots back gives the
/// items again: element `i` holds the bytes of item `i`, or zeros where the
/// item was a null, and it is null exactly where the item was.
pub proof fn lemma_round_trip(size: nat, items: Seq<Option<Seq<u8>>>, i: int)
    requires
        size > 0,
        well_sized(size, items),
        0 <= i < items.len(),
    ensures
        built_values(size, items).len() == items.len() * size,
        well_formed(size, built_values(size, items), built_validity(items)),
        built_values(size, items).len() / size == items.len(),
        slot(built_values(size, items), size, i) == match items[i] {
            Some(bytes) => bytes,
            None => zeros(size),
        },
        is_null(built_validity(items), i) == (items[i] is None),
    decreases items.len(),
{
    let before = items.drop_last();
    let count = before.len();
    lemma_built_shape(size, before);
    lemma_built_shape(size, items);
    lemma_slots(items.len(), size);
    let values = built_values(size, items);
    let earlier = built_values(size, before);
    assert((count + 1) * size == count * size + size) by (nonlinear_arith);
    if i < count {
        lemma_round_trip(size, before, i);
        lemma_slot_in_range(earlier.len(), size, i as nat);
        assert(slot(values, size, i) =~= slot(earlier, size, i));
        assert(before[i] == items[i]);
    } else {
        let last = match items.last() {
            Some(bytes) => bytes,
            None => zeros(size),
        };
        assert(values == earlier + last);
        assert(slot(values, size, i) =~= last);
    }
}

/// A builder into which `items` of the right size were appended holds whole
/// elements, as many as the items, and its mask covers them.
pub proof fn lemma_built_shape(size: nat, items: Seq<Option<Seq<u8>>>)
    requires
        size > 0,
        well_sized(size, items),
    ensures
        built_values(size, items).len() == items.len() * size,
        mask_fits(items.len(), built_validity(items)),
    decreases items.len(),
{
    if items.len() > 0 {
        let before = items.drop_last();
        assert forall|i: int| 0 <= i < before.len() && before[i] is Some implies (
        #[trigger] before[i])->0.len() == size by {
            assert(before[i] == items[i]);
        }
        lemma_built_shape(size, before);
        assert((before.len() + 1) * size == before.len() * size + size) by (nonlinear_arith);
    } else {
        assert(0 * size == 0) by (nonlinear_arith);
    }
}

/// A growable array of byte strings of one length.
#[derive(Debug)]
pub struct MutableFixedSizeBinaryArray {
    data_type: DataType,
    size: usize,
    values: MutableBuffer<u8>,
    validity: Option<MutableBitmap>,
}

impl MutableFixedSizeBinaryArray {
    /// Bytes per element.
    pub closed spec fn size_view(&self) -> nat {
        self.size as nat
    }

    /// The bytes of all elements, null slots included.
    pub closed spec fn values_view(&self) -> Seq<u8> {
        self.values@
    }

    /// The validity mask, where there is one.
    pub closed spec fn validity_view(&self) -> Option<Seq<bool>> {
        mutable_mask_view(self.validity)
    }

    /// The logical type tag.
    pub closed spec fn data_type_view(&self) -> DataType {
        self.data_type
    }

    /// Whether the mask, where there is one, is in order.
    pub closed spec fn validity_wf(&self) -> bool {
        mutable_mask_wf(self.validity)
    }

    /// Number of elements.
    pub open spec fn len_view(&self) -> nat {
        self.values_view().len() / self.size_view()
    }

    /// The builder holds whole elements of a positive size, a mask that
    /// covers them if it has one, and the type tag of its size.
    pub open spec fn wf(&self) -> bool {
        &&& well_formed(self.size_view(), self.values_view(), self.validity_view())
        &&& self.validity_wf()
        &&& self.data_type_view() == DataType::FixedSizeBinary(self.size_view() as usize)
    }

    /// A builder over the given parts.
    pub fn from_data(size: usize, values: MutableBuffer<u8>, validity: Option<MutableBitmap>) -> (r:
        Self)
        requires
            well_formed(size as nat, values@, mutable_mask_view(validity)),
            mutable_mask_wf(validity),
        ensures
            r.wf(),
            r.size_view() == size,
            r.values_view() == values@,
            r.validity_view() == mutable_mask_view(validity),
    {
        MutableFixedSizeBinaryArray {
            data_type: DataType::FixedSizeBinary(size),
            size,
            values,
            validity,
        }
    }

    /// The empty builder of elements of `size` bytes.
    pub fn new(size: usize) -> (r: Self)
        requires
            size > 0,
        ensures
            r.wf(),
            r.size_view() == size,
            r.values_view() == Seq::<u8>::empty(),
            r.validity_view() is None,
    {
        Self::with_capacity(size, 0)
    }

    /// The empty builder of elements of `size` bytes, with room reserved for
    /// `capacity` of them.
    pub fn with_capacity(size: usize, capacity: usize) -> (r: Self)
        requires
            size > 0,
            capacity * size <= usize::MAX,
        ensures
            r.wf(),
            r.size_view() == size,
            r.values_view() == Seq::<u8>::empty(),
            r.validity_view() is None,
    {
        proof {
            lemma_slots(0, size as nat);
            assert(0 * size == 0) by (nonlinear_arith);
        }
        Self::from_data(size, MutableBuffer::<u8>::with_capacity(capacity * size), None)
    }

    /// Appends one element: the given bytes, or a null. Bytes of another
    /// length than the builder's are refused and leave the builder as it was.
    pub fn try_push(&mut self, value: Option<&[u8]>) -> (r: Result<(), ArrowError>)
        requires
            old(self).wf(),
        ensures
            final(self).wf(),
            match r {
                Ok(_) => {
                    &&& value is Some ==> value->0@.len() == old(self).size_view()
                    &&& final(self).size_view() == old(self).size_view()
                    &&& final(self).values_view() == pushed_values(
                        old(self).values_view(),
                        old(self).size_view(),
                        item_view(value),
                    )
                    &&& final(self).validity_view() == pushed_validity(
                        old(self).validity_view(),
                        old(self).len_view(),
                        item_view(value),
                    )
                    &&& final(self).len_view() == old(self).len_view() + 1
                },
                Err(e) => {
                    &&& e is InvalidArgumentError
                    &&& e->InvalidArgumentError_0@ == wrong_length_message()
                    &&& value is Some
                    &&& value->0@.len() != old(self).size_view()
                    &&& *final(self) == *old(self)
                },
            },
    {
        proof {
            lemma_one_more_slot(self.values_view().len(), self.size_view());
            lemma_whole_slots(self.values_view().len(), self.size_view());
            assert(self.len_view() <= self.len_view() * self.size_view()) by (nonlinear_arith)
                requires
                    self.size_view() >= 1,
            ;
        }
        match value {
            Some(bytes) => {
                if self.size != bytes.len() {
                    return Err(
                        ArrowError::InvalidArgumentError(
                            "FixedSizeBinaryArray requires every item to be of its length".to_string(),
                        ),
                    );
                }
                self.values.extend_from_slice(bytes);
                let _ = self.values.len();
                match &mut self.validity {
                    Some(validity) => validity.push(true),
                    None => {},
                }
            },
            None => {
                self.values.extend_constant(self.size, 0);
                let _ = self.values.len();
                match &mut self.validity {
                    Some(validity) => validity.push(false),
                    None => self.init_validity(),
                }
            },
        }
        Ok(())
    }

    /// Appends one element whose length the caller has checked.
    pub fn push(&mut self, value: Option<&[u8]>)
        requires
            old(self).wf(),
            value is Some ==> value->0@.len() == old(self).size_view(),
        ensures
            final(self).wf(),
            final(self).size_view() == old(self).size_view(),
            final(self).values_view() == pushed_values(
                old(self).values_view(),
                old(self).size_view(),
                item_view(value),
            ),
            final(self).validity_view() == pushed_validity(
                old(self).validity_view(),
                old(self).len_view(),
                item_view(value),
            ),
            final(self).len_view() == old(self).len_view() + 1,
    {
        let _ = self.try_push(value);
    }

    /// Creates the mask at the first null: every element valid but the last,
    /// which was just appended.
    fn init_validity(&mut self)
        requires
            old(self).wf(),
            old(self).validity_view() is None,
            old(self).len_view() >= 1,
        ensures
            final(self).wf(),
            final(self).size_view() == old(self).size_view(),
            final(self).values_view() == old(self).values_view(),
            final(self).validity_view() == Some(
                Seq::new((old(self).len_view() - 1) as nat, |i: int| true).push(false),
            ),
    {
        let len = self.len();
        let mut validity = MutableBitmap::new();
        validity.extend_constant(len, true);
        validity.set(len - 1, false);
        assert(validity@ =~= Seq::new((len - 1) as nat, |i: int| true).push(false));
        self.validity = Some(validity)
    }

    /// Whether the builder is in order, which every builder made and changed
    /// through these functions is.
    pub fn is_valid(&self) -> (r: bool)
        ensures
            r == self.wf(),
    {
        if self.size == 0 || self.values.len() % self.size != 0 {
            return false;
        }
        let fits = match &self.validity {
            Some(validity) => validity.is_valid() && validity.len() == self.values.len()
                / self.size,
            None => true,
        };
        fits && self.data_type == DataType::FixedSizeBinary(self.size)
    }

    /// Number of elements.
    pub fn len(&self) -> (r: usize)
        requires
            self.wf(),
        ensures
            r == self.len_view(),
    {
        self.values.len() / self.size
    }

    /// Bytes per element.
    pub fn size(&self) -> (r: usize)
        ensures
            r == self.size_view(),
    {
        self.size
    }

    /// The bytes of element `i`.
    pub fn value(&self, i: usize) -> (r: &[u8])
        requires
            self.wf(),
            i < self.len_view(),
        ensures
            r@ == slot(self.values_view(), self.size_view(), i as int),
            r@.len() == self.size_view(),
    {
        proof {
            lemma_slot_in_range(self.values@.len(), self.size as nat, i as nat);
        }
        let bytes = self.values.as_slice();
        let _ = bytes.len();
        vstd::slice::slice_subrange(bytes, i * self.size, (i + 1) * self.size)
    }

    /// The bytes of element `i`, for a caller who has shown that the builder
    /// holds it.
    pub fn value_unchecked(&self, i: usize) -> (r: &[u8])
        requires
            self.wf(),
            i < self.len_view(),
        ensures
            r@ == slot(self.values_view(), self.size_view(), i as int),
            r@.len() == self.size_view(),
    {
        self.value(i)
    }

    /// The bytes of all elements.
    pub fn values(&self) -> (r: &MutableBuffer<u8>)
        ensures
            r@ == self.values_view(),
    {
        &self.values
    }

    /// The validity mask.
    pub fn validity(&self) -> (r: &Option<MutableBitmap>)
        ensures
            mutable_mask_view(*r) == self.validity_view(),
    {
        &self.validity
    }

    /// The logical type tag.
    pub fn data_type(&self) -> (r: &DataType)
        ensures
            *r == self.data_type_view(),
    {
        &self.data_type
    }

    /// The bytes of all elements, open to writing. What is written through
    /// the slice is what the builder then holds, and a builder that was in
    /// order stays so, since a slice keeps its length.
    pub fn values_mut_slice(&mut self) -> (r: &mut [u8])
        ensures
            r@ == old(self).values_view(),
            final(self).values_view() == final(r)@,
            final(self).size_view() == old(self).size_view(),
            final(self).validity_view() == old(self).validity_view(),
            final(self).data_type_view() == old(self).data_type_view(),
            old(self).wf() && final(r)@.len() == r@.len() ==> final(self).wf(),
    {
        self.values.as_mut_slice()
    }

    /// Appends a null element.
    pub fn push_null(&mut self)
        requires
            old(self).wf(),
        ensures
            final(self).wf(),
            final(self).size_view() == old(self).size_view(),
            final(self).values_view() == old(self).values_view() + zeros(old(self).size_view()),
            final(self).validity_view() == pushed_validity(
                old(self).validity_view(),
                old(self).len_view(),
                None,
            ),
            final(self).len_view() == old(self).len_view() + 1,
    {
        self.push(None)
    }

    /// A builder of elements of `size` bytes that holds `items` in order, or
    /// the argument error where one of them has another length.
    pub fn try_from_iter(items: &[Option<&[u8]>], size: usize) -> (r: Result<Self, ArrowError>)
        requires
            size > 0,
        ensures
            match r {
                Ok(array) => {
                    &&& well_sized(size as nat, items_view(items@))
                    &&& array.wf()
                    &&& array.size_view() == size
                    &&& array.values_view() == built_values(size as nat, items_view(items@))
                    &&& array.validity_view() == built_validity(items_view(items@))
                    &&& array.len_view() == items@.len()
                },
                Err(e) => {
                    &&& e is InvalidArgumentError
                    &&& e->InvalidArgumentError_0@ == wrong_length_message()
                    &&& !well_sized(size as nat, items_view(items@))
                },
            },
    {
        let ghost all = items_view(items@);
        let reserve = match items.len().checked_mul(size) {
            Some(_) => items.len(),
            None => 0,
        };
        let mut array = Self::with_capacity(size, reserve);
        let mut k: usize = 0;
        assert(all.take(0) =~= Seq::<Option<Seq<u8>>>::empty());
        while k < items.len()
            invariant
                k <= items@.len(),
                size > 0,
                all == items_view(items@),
                array.wf(),
                array.size_view() == size,
                well_sized(size as nat, all.take(k as int)),
                array.values_view() == built_values(size as nat, all.take(k as int)),
                array.validity_view() == built_validity(all.take(k as int)),
                array.len_view() == k,
            decreases items@.len() - k,
        {
            proof {
                assert(all.take(k + 1).drop_last() =~= all.take(k as int));
                assert(all.take(k + 1).last() == item_view(items@[k as int]));
            }
            match array.try_push(items[k]) {
                Ok(_) => {},
                Err(e) => {
                    assert(all[k as int] is Some && all[k as int]->0.len() != size);
                    return Err(e);
                },
            }
            proof {
                assert forall|i: int|
                    0 <= i < k + 1 && all.take(k + 1)[i] is Some implies (#[trigger] all.take(
                    k + 1,
                )[i])->0.len() == size by {
                    if i < k {
                        assert(all.take(k as int)[i] == all.take(k + 1)[i]);
                    }
                }
            }
            k += 1;
        }
        assert(all.take(k as int) =~= all);
        Ok(array)
    }

    /// Moves the elements into an immutable array and leaves the builder
    /// empty.
    pub fn as_arc(&mut self) -> (r: std::sync::Arc<FixedSizeBinaryArray>)
        requires
            old(self).wf(),
        ensures
            final(self).wf(),
            final(self).size_view() == old(self).size_view(),
            final(self).values_view() == Seq::<u8>::empty(),
            final(self).validity_view() is None,
            r.size_view() == old(self).size_view(),
            r.values_view() == old(self).values_view(),
            r.validity_view() == old(self).validity_view(),
    {
        proof {
            lemma_slots(0, self.size_view());
            assert(0 * self.size_view() == 0) by (nonlinear_arith);
        }
        let mut values = MutableBuffer::<u8>::new();
        let mut validity: Option<MutableBitmap> = None;
        std::mem::swap(&mut values, &mut self.values);
        std::mem::swap(&mut validity, &mut self.validity);
        std::sync::Arc::new(freeze_parts(self.size, values, validity))
    }
}

/// An immutable array of the parts of a builder.
fn freeze_parts(size: usize, values: MutableBuffer<u8>, validity: Option<MutableBitmap>) -> (r:
    FixedSizeBinaryArray)
    requires
        well_formed(size as nat, values@, mutable_mask_view(validity)),
        mutable_mask_wf(validity),
    ensures
        r.size_view() == size,
        r.values_view() == values@,
        r.validity_view() == mutable_mask_view(validity),
{
    let validity = match validity {
        Some(bitmap) => Some(Bitmap::from_mutable(bitmap)),
        None => None,
    };
    FixedSizeBinaryArray::from_data(
        DataType::FixedSizeBinary(size),
        Buffer::from_mutable(values),
        validity,
    )
}

impl FixedSizeBinaryArray {
    /// Freezes a builder: its bytes and its mask move into the array.
    pub fn from_mutable(other: MutableFixedSizeBinaryArray) -> (r: Self)
        requires
            other.wf(),
        ensures
            r.size_view() == other.size_view(),
            r.values_view() == other.values_view(),
            r.validity_view() == other.validity_view(),
    {
        freeze_parts(other.size, other.values, other.validity)
    }
}

} // verus!
