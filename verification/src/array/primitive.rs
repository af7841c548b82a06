//! Arrays of native scalars.

use vstd::prelude::*;
use crate::array::{logical, mask_fits, mask_view, null_count_of};
use crate::bitmap::{Bitmap, MutableBitmap};
use crate::buffer::Buffer;
use crate::datatypes::DataType;
use crate::types::NativeType;

verus! {

/// An immutable array of native scalars, some of whose slots may be null.
#[derive(Debug)]
pub struct PrimitiveArray<T: NativeType> {
    data_type: DataType,
    values: Buffer<T>,
    validity: Option<Bitmap>,
}

impl<T: NativeType> View for PrimitiveArray<T> {
    type V = Seq<Option<T>>;

    open spec fn view(&self) -> Seq<Option<T>> {
        logical(self.values_view(), self.validity_view())
    }
}

impl<T: NativeType> PrimitiveArray<T> {
    #[verifier::type_invariant]
    spec fn inv(self) -> bool {
        mask_fits(self.values@.len(), mask_view(self.validity))
    }

    /// The stored values, null slots included.
    pub closed spec fn values_view(&self) -> Seq<T> {
        self.values@
    }

    /// The validity mask, where there is one.
    pub closed spec fn validity_view(&self) -> Option<Seq<bool>> {
        mask_view(self.validity)
    }

    /// The logical type tag.
    pub closed spec fn data_type_view(&self) -> DataType {
        self.data_type
    }

    /// An array of the given parts.
    pub fn from_data(data_type: DataType, values: Buffer<T>, validity: Option<Bitmap>) -> (r: Self)
        requires
            mask_fits(values@.len(), mask_view(validity)),
        ensures
            r.values_view() == values@,
            r.validity_view() == mask_view(validity),
            r.data_type_view() == data_type,
    {
        PrimitiveArray { data_type, values, validity }
    }

    /// An array of the given elements; it has a mask only if one of them is `None`.
    pub fn from_options(items: &[Option<T>]) -> (r: Self)
        ensures
            r@ == items@,
            r.data_type_view() == T::data_type_of(),
            r.values_view().len() == items@.len(),
            forall|k: int| 0 <= k < items@.len() ==> r.values_view()[k] == match items@[k] {
                Some(v) => v,
                None => T::default_value(),
            },
            r.validity_view() is Some <==> exists|k: int| 0 <= k < items@.len() && items@[k] is None,
    {
        let mut values: Vec<T> = Vec::with_capacity(items.len());
        let mut bits = MutableBitmap::with_capacity(items.len());
        let mut any_null = false;
        let mut k: usize = 0;
        while k < items.len()
            invariant
                k <= items@.len(),
                values@.len() == k,
                bits@.len() == k,
                bits.wf(),
                forall|j: int| 0 <= j < k ==> bits@[j] == (items@[j] is Some),
                forall|j: int| 0 <= j < k ==> values@[j] == match items@[j] {
                    Some(v) => v,
                    None => T::default_value(),
                },
                any_null <==> exists|j: int| 0 <= j < k && items@[j] is None,
            decreases items@.len() - k,
        {
            match items[k] {
                Some(v) => {
                    values.push(v);
                    bits.push(true);
                },
                None => {
                    values.push(T::default_native());
                    bits.push(false);
                    any_null = true;
                },
            }
            k += 1;
        }
        let validity = if any_null {
            Some(Bitmap::from_mutable(bits))
        } else {
            None
        };
        let r = PrimitiveArray { data_type: T::data_type(), values: Buffer::from_vec(values), validity };
        assert(r@ =~= items@);
        r
    }

    /// Number of slots.
    pub fn len(&self) -> (r: usize)
        ensures
            r == self.values_view().len(),
            r == self@.len(),
    {
        self.values.len()
    }

    /// The stored values.
    pub fn values(&self) -> (r: &Buffer<T>)
        ensures
            r@ == self.values_view(),
    {
        &self.values
    }

    /// The validity mask, which covers every slot where it is present.
    pub fn validity(&self) -> (r: &Option<Bitmap>)
        ensures
            mask_view(*r) == self.validity_view(),
            mask_fits(self.values_view().len(), self.validity_view()),
    {
        proof {
            use_type_invariant(self);
        }
        &self.validity
    }

    /// The logical type tag.
    pub fn data_type(&self) -> (r: &DataType)
        ensures
            *r == self.data_type_view(),
    {
        &self.data_type
    }

    /// Number of null slots.
    pub fn null_count(&self) -> (r: usize)
        ensures
            r == null_count_of(self.validity_view()),
    {
        match &self.validity {
            Some(bitmap) => bitmap.null_count(),
            None => 0,
        }
    }

    /// The element in slot `k`: `None` where the slot is null.
    pub fn get(&self, k: usize) -> (r: Option<T>)
        requires
            k < self@.len(),
        ensures
            r == self@[k as int],
    {
        proof {
            use_type_invariant(self);
        }
        let valid = match &self.validity {
            Some(bitmap) => bitmap.get_bit(k),
            None => true,
        };
        if valid {
            Some(self.values.as_slice()[k])
        } else {
            None
        }
    }

    /// The elements, slot by slot.
    pub fn to_options(&self) -> (r: Vec<Option<T>>)
        ensures
            r@ == self@,
    {
        let mut out: Vec<Option<T>> = Vec::with_capacity(self.len());
        let mut k: usize = 0;
        while k < self.len()
            invariant
                k <= self@.len(),
                out@ == self@.take(k as int),
            decreases self@.len() - k,
        {
            let item = self.get(k);
            out.push(item);
            k += 1;
            assert(out@ =~= self@.take(k as int));
        }
        assert(self@.take(k as int) =~= self@);
        out
    }
}

impl<T: NativeType, const N: usize> From<&[Option<T>; N]> for PrimitiveArray<T> {
    fn from(items: &[Option<T>; N]) -> (r: Self)
        ensures
            r@ == items@,
    {
        PrimitiveArray::from_options(items.as_slice())
    }
}

impl<T: NativeType, const N: usize> vstd::std_specs::convert::FromSpecImpl<&[Option<T>; N]> for PrimitiveArray<T> {
    open spec fn obeys_from_spec() -> bool {
        false
    }

    open spec fn from_spec(items: &[Option<T>; N]) -> Self {
        arbitrary()
    }
}

} // verus!
