//! Arrays of booleans.

use vstd::prelude::*;
use crate::array::{logical, mask_fits, mask_view, null_count_of};
use crate::bitmap::{Bitmap, MutableBitmap};

verus! {

/// An immutable array of booleans, some of whose slots may be null.
#[derive(Debug)]
pub struct BooleanArray {
    values: Bitmap,
    validity: Option<Bitmap>,
}

impl View for BooleanArray {
    type V = Seq<Option<bool>>;

    open spec fn view(&self) -> Seq<Option<bool>> {
        logical(self.values_view(), self.validity_view())
    }
}

impl BooleanArray {
    #[verifier::type_invariant]
    spec fn inv(self) -> bool {
        mask_fits(self.values@.len(), mask_view(self.validity))
    }

    /// The stored values, null slots included.
    pub closed spec fn values_view(&self) -> Seq<bool> {
        self.values@
    }

    /// The validity mask, where there is one.
    pub closed spec fn validity_view(&self) -> Option<Seq<bool>> {
        mask_view(self.validity)
    }

    /// An array of the given parts.
    pub fn from_data(values: Bitmap, validity: Option<Bitmap>) -> (r: Self)
        requires
            mask_fits(values@.len(), mask_view(validity)),
        ensures
            r.values_view() == values@,
            r.validity_view() == mask_view(validity),
    {
        BooleanArray { values, validity }
    }

    /// An array of the given elements; it has a mask only if one of them is `None`.
    pub fn from_options(items: &[Option<bool>]) -> (r: Self)
        ensures
            r@ == items@,
            r.values_view().len() == items@.len(),
            forall|k: int| 0 <= k < items@.len() ==> r.values_view()[k] == match items@[k] {
                Some(v) => v,
                None => false,
            },
            r.validity_view() is Some <==> exists|k: int| 0 <= k < items@.len() && items@[k] is None,
    {
        let mut values = MutableBitmap::with_capacity(items.len());
        let mut bits = MutableBitmap::with_capacity(items.len());
        let mut any_null = false;
        let mut k: usize = 0;
        while k < items.len()
            invariant
                k <= items@.len(),
                values@.len() == k,
                bits@.len() == k,
                values.wf(),
                bits.wf(),
                forall|j: int| 0 <= j < k ==> bits@[j] == (items@[j] is Some),
                forall|j: int| 0 <= j < k ==> values@[j] == match items@[j] {
                    Some(v) => v,
                    None => false,
                },
                any_null <==> exists|j: int| 0 <= j < k && items@[j] is None,
            decreases items@.len() - k,
        {
            match items[k] {
                Some(v) => {
                    values.push(v);
                    bits.push(true);
                },
                None => {
                    values.push(false);
                    bits.push(false);
                    any_null = true;
                },
            }
            k += 1;
        }
        let validity = if any_null {
            Some(Bitmap::from_mutable(bits))
        } else {
            None
        };
        let r = BooleanArray { values: Bitmap::from_mutable(values), validity };
        assert(r@ =~= items@);
        r
    }

    /// Number of slots.
    pub fn len(&self) -> (r: usize)
        ensures
            r == self.values_view().len(),
            r == self@.len(),
    {
        self.values.len()
    }

    /// The stored values.
    pub fn values(&self) -> (r: &Bitmap)
        ensures
            r@ == self.values_view(),
    {
        &self.values
    }

    /// The validity mask, which covers every slot where it is present.
    pub fn validity(&self) -> (r: &Option<Bitmap>)
        ensures
            mask_view(*r) == self.validity_view(),
            mask_fits(self.values_view().len(), self.validity_view()),
    {
        proof {
            use_type_invariant(self);
        }
        &self.validity
    }

    /// Number of null slots.
    pub fn null_count(&self) -> (r: usize)
        ensures
            r == null_count_of(self.validity_view()),
    {
        match &self.validity {
            Some(bitmap) => bitmap.null_count(),
            None => 0,
        }
    }

    /// The element in slot `k`: `None` where the slot is null.
    pub fn get(&self, k: usize) -> (r: Option<bool>)
        requires
            k < self@.len(),
        ensures
            r == self@[k as int],
    {
        proof {
            use_type_invariant(self);
        }
        let valid = match &self.validity {
            Some(bitmap) => bitmap.get_bit(k),
            None => true,
        };
        if valid {
            Some(self.values.get_bit(k))
        } else {
            None
        }
    }

    /// The elements, slot by slot.
    pub fn to_options(&self) -> (r: Vec<Option<bool>>)
        ensures
            r@ == self@,
    {
        let mut out: Vec<Option<bool>> = Vec::with_capacity(self.len());
        let mut k: usize = 0;
        while k < self.len()
            invariant
                k <= self@.len(),
                out@ == self@.take(k as int),
            decreases self@.len() - k,
        {
            let item = self.get(k);
            out.push(item);
            k += 1;
            assert(out@ =~= self@.take(k as int));
        }
        assert(self@.take(k as int) =~= self@);
        out
    }

    /// Whether both arrays stand for the same elements. What a null slot
    /// stores does not count.
    pub fn equals(&self, other: &Self) -> (r: bool)
        ensures
            r == (self@ == other@),
    {
        if self.len() != other.len() {
            return false;
        }
        let mut k: usize = 0;
        while k < self.len()
            invariant
                k <= self@.len(),
                self@.len() == other@.len(),
                forall|j: int| 0 <= j < k ==> self@[j] == other@[j],
            decreases self@.len() - k,
        {
            let same = match (self.get(k), other.get(k)) {
                (Some(a), Some(b)) => a == b,
                (None, None) => true,
                _ => false,
            };
            if !same {
                return false;
            }
            k += 1;
        }
        assert(self@ =~= other@);
        true
    }
}

impl PartialEq for BooleanArray {
    fn eq(&self, other: &Self) -> (r: bool) {
        self.equals(other)
    }
}

impl vstd::std_specs::cmp::PartialEqSpecImpl for BooleanArray {
    open spec fn obeys_eq_spec() -> bool {
        true
    }

    open spec fn eq_spec(&self, other: &Self) -> bool {
        self@ == other@
    }
}

impl From<Vec<Option<bool>>> for BooleanArray {
    fn from(items: Vec<Option<bool>>) -> (r: Self)
        ensures
            r@ == items@,
    {
        BooleanArray::from_options(items.as_slice())
    }
}

impl vstd::std_specs::convert::FromSpecImpl<Vec<Option<bool>>> for BooleanArray {
    open spec fn obeys_from_spec() -> bool {
        false
    }

    open spec fn from_spec(items: Vec<Option<bool>>) -> Self {
        arbitrary()
    }
}

} // verus!
