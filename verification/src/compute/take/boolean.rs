//! The gather kernel on arrays of booleans.

use vstd::prelude::*;
use crate::array::boolean::BooleanArray;
use crate::array::primitive::PrimitiveArray;
use crate::array::mask_view;
use crate::bitmap::{Bitmap, MutableBitmap};
use crate::compute::take::{
    all_in_bounds, checked_gathered, gathered, gathered_mask, index_ok, lemma_no_null_indices,
    maybe_usize, taken_values,
};
use crate::error::ArrowError;
use crate::types::Index;

verus! {

/// The bit at `index`. A checked read gives the index error past the end;
/// an unchecked one is made only where the caller has shown the index to be
/// in bounds.
fn get_value<const CHECKED: bool>(values: &Bitmap, index: usize) -> (r: Result<bool, ArrowError>)
    requires
        !CHECKED ==> index < values@.len(),
    ensures
        match r {
            Ok(v) => index < values@.len() && v == values@[index as int],
            Err(e) => CHECKED && e is KeyOverflowError && index >= values@.len(),
        },
{
    if CHECKED {
        match values.get(index) {
            Some(v) => Ok(v),
            None => Err(ArrowError::KeyOverflowError),
        }
    } else {
        Ok(values.get_bit(index))
    }
}

/// The value and the validity bit at `index`.
fn get_value_and_validity<const CHECKED: bool>(
    values: &Bitmap,
    validity: &Bitmap,
    index: usize,
) -> (r: Result<(bool, bool), ArrowError>)
    requires
        !CHECKED ==> index < values@.len() && index < validity@.len(),
    ensures
        match r {
            Ok((v, valid)) => index < values@.len() && index < validity@.len() && v
                == values@[index as int] && valid == validity@[index as int],
            Err(e) => CHECKED && e is KeyOverflowError && (index >= values@.len() || index
                >= validity@.len()),
        },
{
    let v = get_value::<CHECKED>(values, index)?;
    let valid = get_value::<CHECKED>(validity, index)?;
    Ok((v, valid))
}

/// Gathers where neither the source nor the indices have null slots.
fn take_no_validity<I: Index, const CHECKED: bool>(
    values: &Bitmap,
    indices: &[I],
) -> (r: Result<
    (Bitmap, Option<Bitmap>),
    ArrowError,
>)
    requires
        !CHECKED ==> all_in_bounds(values@.len(), indices@, None),
    ensures
        match r {
            Ok((buffer, validity)) => all_in_bounds(values@.len(), indices@, None)
                && buffer@ == taken_values(values@, indices@, None, false)
                && validity is None,
            Err(e) => e is KeyOverflowError && !all_in_bounds(values@.len(), indices@, None),
        },
{
    let ghost want = taken_values(values@, indices@, None, false);
    let _ = values.len();
    let mut out: Vec<bool> = Vec::with_capacity(indices.len());
    let mut k: usize = 0;
    while k < indices.len()
        invariant
            k <= indices@.len(),
            values@.len() <= usize::MAX,
            want == taken_values(values@, indices@, None, false),
            !CHECKED ==> all_in_bounds(values@.len(), indices@, None),
            forall|j: int| 0 <= j < k ==> #[trigger] index_ok(values@.len(), indices@, None, j),
            out@ == want.take(k as int),
        decreases indices@.len() - k,
    {
        let offset = match maybe_usize(indices[k]) {
            Ok(offset) => offset,
            Err(e) => {
                assert(!index_ok(values@.len(), indices@, None, k as int));
                return Err(e);
            },
        };
        assert(!CHECKED ==> index_ok(values@.len(), indices@, None, k as int));
        let value = match get_value::<CHECKED>(values, offset) {
            Ok(value) => value,
            Err(e) => {
                assert(!index_ok(values@.len(), indices@, None, k as int));
                return Err(e);
            },
        };
        out.push(value);
        assert(index_ok(values@.len(), indices@, None, k as int));
        k += 1;
        assert(out@ =~= want.take(k as int));
    }
    assert(want.take(k as int) =~= want);
    Ok((Bitmap::from_bools(out), None))
}

/// Gathers where only the source has null slots. The source must have a mask.
fn take_values_validity<I: Index, const CHECKED: bool>(
    values: &BooleanArray,
    indices: &[I],
) -> (r:
    Result<(Bitmap, Option<Bitmap>), ArrowError>)
    requires
        !CHECKED ==> all_in_bounds(values.values_view().len(), indices@, None),
        values.validity_view() is Some,
    ensures
        match r {
            Ok((buffer, validity)) => all_in_bounds(values.values_view().len(), indices@, None)
                && buffer@ == taken_values(
                values.values_view(),
                indices@,
                None,
                false,
            ) && mask_view(validity) == Some(
                gathered_mask(values.validity_view()->0, indices@, None),
            ),
            Err(e) => e is KeyOverflowError && !all_in_bounds(
                values.values_view().len(),
                indices@,
                None,
            ),
        },
{
    let mut validity = MutableBitmap::with_capacity(indices.len());
    let source_validity = values.validity().as_ref().unwrap();
    let source = values.values();
    let _ = source.len();
    let ghost want = taken_values(source@, indices@, None, false);
    let ghost want_mask = gathered_mask(source_validity@, indices@, None);
    let mut out: Vec<bool> = Vec::with_capacity(indices.len());
    let mut k: usize = 0;
    while k < indices.len()
        invariant
            k <= indices@.len(),
            source@ == values.values_view(),
            Some(source_validity@) == values.validity_view(),
            source@.len() == source_validity@.len(),
            source@.len() <= usize::MAX,
            want == taken_values(source@, indices@, None, false),
            want_mask == gathered_mask(source_validity@, indices@, None),
            !CHECKED ==> all_in_bounds(source@.len(), indices@, None),
            forall|j: int| 0 <= j < k ==> #[trigger] index_ok(source@.len(), indices@, None, j),
            out@ == want.take(k as int),
            validity.wf(),
            validity@ == want_mask.take(k as int),
        decreases indices@.len() - k,
    {
        let offset = match maybe_usize(indices[k]) {
            Ok(offset) => offset,
            Err(e) => {
                assert(!index_ok(source@.len(), indices@, None, k as int));
                return Err(e);
            },
        };
        assert(!CHECKED ==> index_ok(source@.len(), indices@, None, k as int));
        let (value, is_valid) = match get_value_and_validity::<CHECKED>(
            source,
            source_validity,
            offset,
        ) {
            Ok(pair) => pair,
            Err(e) => {
                assert(!index_ok(source@.len(), indices@, None, k as int));
                return Err(e);
            },
        };
        if is_valid {
            validity.push(true);
        } else {
            validity.push(false);
        }
        out.push(value);
        assert(index_ok(source@.len(), indices@, None, k as int));
        k += 1;
        assert(out@ =~= want.take(k as int));
        assert(validity@ =~= want_mask.take(k as int));
    }
    assert(want.take(k as int) =~= want);
    assert(want_mask.take(k as int) =~= want_mask);
    Ok((Bitmap::from_bools(out), Some(Bitmap::from_mutable(validity))))
}

/// Gathers where only the indices have null slots.
fn take_indices_validity<I: Index, const CHECKED: bool>(
    values: &Bitmap,
    indices: &PrimitiveArray<I>,
) -> (r:
    Result<(Bitmap, Option<Bitmap>), ArrowError>)
    requires
        !CHECKED ==> all_in_bounds(
            values@.len(),
            indices.values_view(),
            indices.validity_view(),
        ),
    ensures
        match r {
            Ok((buffer, validity)) => all_in_bounds(
                values@.len(),
                indices.values_view(),
                indices.validity_view(),
            ) && buffer@ == taken_values(
                values@,
                indices.values_view(),
                indices.validity_view(),
                false,
            ) && mask_view(validity) == indices.validity_view(),
            Err(e) => e is KeyOverflowError && !all_in_bounds(
                values@.len(),
                indices.values_view(),
                indices.validity_view(),
            ),
        },
{
    let ghost idx = indices.values_view();
    let ghost iv = indices.validity_view();
    let ghost want = taken_values(values@, idx, iv, false);
    let count = indices.len();
    let _ = values.len();
    let mut out: Vec<bool> = Vec::with_capacity(count);
    let mut k: usize = 0;
    while k < count
        invariant
            k <= count,
            count == idx.len(),
            idx == indices.values_view(),
            iv == indices.validity_view(),
            indices@.len() == count,
            values@.len() <= usize::MAX,
            want == taken_values(values@, idx, iv, false),
            !CHECKED ==> all_in_bounds(values@.len(), idx, iv),
            forall|j: int| 0 <= j < k ==> #[trigger] index_ok(values@.len(), idx, iv, j),
            out@ == want.take(k as int),
        decreases count - k,
    {
        let value = match indices.get(k) {
            Some(index) => {
                let offset = match maybe_usize(index) {
                    Ok(offset) => offset,
                    Err(e) => {
                        assert(!index_ok(values@.len(), idx, iv, k as int));
                        return Err(e);
                    },
                };
                assert(!CHECKED ==> index_ok(values@.len(), idx, iv, k as int));
                match get_value::<CHECKED>(values, offset) {
                    Ok(value) => value,
                    Err(e) => {
                        assert(!index_ok(values@.len(), idx, iv, k as int));
                        return Err(e);
                    },
                }
            },
            None => false,
        };
        out.push(value);
        assert(index_ok(values@.len(), idx, iv, k as int));
        k += 1;
        assert(out@ =~= want.take(k as int));
    }
    assert(want.take(k as int) =~= want);
    let validity = match indices.validity() {
        Some(bitmap) => Some(bitmap.clone()),
        None => None,
    };
    Ok((Bitmap::from_bools(out), validity))
}

/// Gathers where both the source and the indices have null slots. The source
/// must have a mask.
fn take_values_indices_validity<I: Index, const CHECKED: bool>(
    values: &BooleanArray,
    indices: &PrimitiveArray<I>,
) -> (r: Result<(Bitmap, Option<Bitmap>), ArrowError>)
    requires
        !CHECKED ==> all_in_bounds(
            values.values_view().len(),
            indices.values_view(),
            indices.validity_view(),
        ),
        values.validity_view() is Some,
    ensures
        match r {
            Ok((buffer, validity)) => all_in_bounds(
                values.values_view().len(),
                indices.values_view(),
                indices.validity_view(),
            ) && buffer@ == taken_values(
                values.values_view(),
                indices.values_view(),
                indices.validity_view(),
                false,
            ) && mask_view(validity) == Some(
                gathered_mask(
                    values.validity_view()->0,
                    indices.values_view(),
                    indices.validity_view(),
                ),
            ),
            Err(e) => e is KeyOverflowError && !all_in_bounds(
                values.values_view().len(),
                indices.values_view(),
                indices.validity_view(),
            ),
        },
{
    let count = indices.len();
    let mut validity = MutableBitmap::with_capacity(count);
    let source_validity = values.validity().as_ref().unwrap();
    let source = values.values();
    let _ = source.len();
    let ghost idx = indices.values_view();
    let ghost iv = indices.validity_view();
    let ghost want = taken_values(source@, idx, iv, false);
    let ghost want_mask = gathered_mask(source_validity@, idx, iv);
    let mut out: Vec<bool> = Vec::with_capacity(count);
    let mut k: usize = 0;
    while k < count
        invariant
            k <= count,
            count == idx.len(),
            idx == indices.values_view(),
            iv == indices.validity_view(),
            indices@.len() == count,
            source@ == values.values_view(),
            Some(source_validity@) == values.validity_view(),
            source@.len() == source_validity@.len(),
            source@.len() <= usize::MAX,
            want == taken_values(source@, idx, iv, false),
            want_mask == gathered_mask(source_validity@, idx, iv),
            !CHECKED ==> all_in_bounds(source@.len(), idx, iv),
            forall|j: int| 0 <= j < k ==> #[trigger] index_ok(source@.len(), idx, iv, j),
            out@ == want.take(k as int),
            validity.wf(),
            validity@ == want_mask.take(k as int),
        decreases count - k,
    {
        match indices.get(k) {
            Some(index) => {
                let offset = match maybe_usize(index) {
                    Ok(offset) => offset,
                    Err(e) => {
                        assert(!index_ok(source@.len(), idx, iv, k as int));
                        return Err(e);
                    },
                };
                assert(!CHECKED ==> index_ok(source@.len(), idx, iv, k as int));
                let (value, is_valid) = match get_value_and_validity::<CHECKED>(
                    source,
                    source_validity,
                    offset,
                ) {
                    Ok(pair) => pair,
                    Err(e) => {
                        assert(!index_ok(source@.len(), idx, iv, k as int));
                        return Err(e);
                    },
                };
                validity.push(is_valid);
                out.push(value);
            },
            None => {
                validity.push(false);
                out.push(false);
            },
        }
        assert(index_ok(source@.len(), idx, iv, k as int));
        k += 1;
        assert(out@ =~= want.take(k as int));
        assert(validity@ =~= want_mask.take(k as int));
    }
    assert(want.take(k as int) =~= want);
    assert(want_mask.take(k as int) =~= want_mask);
    Ok((Bitmap::from_bools(out), Some(Bitmap::from_mutable(validity))))
}

/// Gathers the elements of `values` that `indices` address, in the order of
/// the indices. A null index gives a null slot that holds the default value.
/// Every non-null index is validated; the first one that addresses no element
/// ends the gather with the index error.
pub fn take<I: Index>(values: &BooleanArray, indices: &PrimitiveArray<I>) -> (r:
    Result<BooleanArray, ArrowError>)
    ensures
        match r {
            Ok(out) => checked_gathered(
                values.values_view(),
                values.validity_view(),
                indices.values_view(),
                indices.validity_view(),
                false,
            ) == Some((out.values_view(), out.validity_view())),
            Err(e) => e is KeyOverflowError && !all_in_bounds(
                values.values_view().len(),
                indices.values_view(),
                indices.validity_view(),
            ),
        },
{
    let indices_has_validity = indices.null_count() > 0;
    let values_has_validity = values.null_count() > 0;
    let _ = indices.validity();
    let _ = values.validity();
    proof {
        if !indices_has_validity {
            lemma_no_null_indices(
                values.values_view(),
                if values.validity_view() is Some {
                    values.validity_view()->0
                } else {
                    Seq::empty()
                },
                indices.values_view(),
                indices.validity_view(),
                false,
            );
        }
    }
    let (buffer, validity) = if !values_has_validity && !indices_has_validity {
        take_no_validity::<I, true>(values.values(), indices.values().as_slice())?
    } else if values_has_validity && !indices_has_validity {
        take_values_validity::<I, true>(values, indices.values().as_slice())?
    } else if !values_has_validity {
        take_indices_validity::<I, true>(values.values(), indices)?
    } else {
        take_values_indices_validity::<I, true>(values, indices)?
    };
    Ok(BooleanArray::from_data(buffer, validity))
}

/// Gathers as `take` does, for indices that the caller has shown to be in
/// bounds: it reads each addressed slot directly and never fails.
pub fn take_unchecked<I: Index>(
    values: &BooleanArray,
    indices: &PrimitiveArray<I>,
) -> (r: Result<BooleanArray, ArrowError>)
    requires
        all_in_bounds(
            values.values_view().len(),
            indices.values_view(),
            indices.validity_view(),
        ),
    ensures
        r is Ok,
        (r->Ok_0.values_view(), r->Ok_0.validity_view()) == gathered(
            values.values_view(),
            values.validity_view(),
            indices.values_view(),
            indices.validity_view(),
            false,
        ),
{
    let indices_has_validity = indices.null_count() > 0;
    let values_has_validity = values.null_count() > 0;
    let _ = indices.validity();
    let _ = values.validity();
    proof {
        if !indices_has_validity {
            lemma_no_null_indices(
                values.values_view(),
                if values.validity_view() is Some {
                    values.validity_view()->0
                } else {
                    Seq::empty()
                },
                indices.values_view(),
                indices.validity_view(),
                false,
            );
        }
    }
    let (buffer, validity) = if !values_has_validity && !indices_has_validity {
        take_no_validity::<I, false>(values.values(), indices.values().as_slice())?
    } else if values_has_validity && !indices_has_validity {
        take_values_validity::<I, false>(values, indices.values().as_slice())?
    } else if !values_has_validity {
        take_indices_validity::<I, false>(values.values(), indices)?
    } else {
        take_values_indices_validity::<I, false>(values, indices)?
    };
    Ok(BooleanArray::from_data(buffer, validity))
}

} // verus!
