//! The gather kernel on arrays of native scalars.

use vstd::prelude::*;
use crate::array::primitive::PrimitiveArray;
use crate::array::mask_view;
use crate::bitmap::{Bitmap, MutableBitmap};
use crate::buffer::Buffer;
use crate::compute::take::{
    all_in_bounds, checked_gathered, gathered, gathered_mask, index_ok, lemma_no_null_indices,
    maybe_usize, taken_values,
};
use crate::error::ArrowError;
use crate::types::{Index, NativeType};

verus! {

/// The value at `index`. A checked read gives the index error past the end;
/// an unchecked one is made only where the caller has shown the index to be
/// in bounds.
fn get_value<T: NativeType, const CHECKED: bool>(values: &[T], index: usize) -> (r: Result<
    T,
    ArrowError,
>)
    requires
        !CHECKED ==> index < values@.len(),
    ensures
        match r {
            Ok(v) => index < values@.len() && v == values@[index as int],
            Err(e) => CHECKED && e is KeyOverflowError && index >= values@.len(),
        },
{
    if !CHECKED || index < values.len() {
        Ok(values[index])
    } else {
        Err(ArrowError::KeyOverflowError)
    }
}

/// The validity bit at `index`, read as `get_value` reads a value.
fn get_validity<const CHECKED: bool>(validity: &Bitmap, index: usize) -> (r: Result<
    bool,
    ArrowError,
>)
    requires
        !CHECKED ==> index < validity@.len(),
    ensures
        match r {
            Ok(v) => index < validity@.len() && v == validity@[index as int],
            Err(e) => CHECKED && e is KeyOverflowError && index >= validity@.len(),
        },
{
    if CHECKED {
        match validity.get(index) {
            Some(v) => Ok(v),
            None => Err(ArrowError::KeyOverflowError),
        }
    } else {
        Ok(validity.get_bit(index))
    }
}

/// The value and the validity bit at `index`.
fn get_value_and_validity<T: NativeType, const CHECKED: bool>(
    values: &[T],
    validity: &Bitmap,
    index: usize,
) -> (r: Result<(T, bool), ArrowError>)
    requires
        !CHECKED ==> index < values@.len() && index < validity@.len(),
    ensures
        match r {
            Ok((v, valid)) => index < values@.len() && index < validity@.len() && v
                == values@[index as int] && valid == validity@[index as int],
            Err(e) => CHECKED && e is KeyOverflowError && (index >= values@.len() || index
                >= validity@.len()),
        },
{
    let v = get_value::<T, CHECKED>(values, index)?;
    let valid = get_validity::<CHECKED>(validity, index)?;
    Ok((v, valid))
}

/// Gathers where neither the source nor the indices have null slots.
fn take_no_validity<T: NativeType, I: Index, const CHECKED: bool>(
    values: &[T],
    indices: &[I],
) -> (r: Result<
    (Buffer<T>, Option<Bitmap>),
    ArrowError,
>)
    requires
        !CHECKED ==> all_in_bounds(values@.len(), indices@, None),
    ensures
        match r {
            Ok((buffer, validity)) => all_in_bounds(values@.len(), indices@, None)
                && buffer@ == taken_values(values@, indices@, None, T::default_value())
                && validity is None,
            Err(e) => e is KeyOverflowError && !all_in_bounds(values@.len(), indices@, None),
        },
{
    let ghost want = taken_values(values@, indices@, None, T::default_value());
    let _ = values.len();
    let mut out: Vec<T> = Vec::with_capacity(indices.len());
    let mut k: usize = 0;
    while k < indices.len()
        invariant
            k <= indices@.len(),
            values@.len() <= usize::MAX,
            want == taken_values(values@, indices@, None, T::default_value()),
            !CHECKED ==> all_in_bounds(values@.len(), indices@, None),
            forall|j: int| 0 <= j < k ==> #[trigger] index_ok(values@.len(), indices@, None, j),
            out@ == want.take(k as int),
        decreases indices@.len() - k,
    {
        let offset = match maybe_usize(indices[k]) {
            Ok(offset) => offset,
            Err(e) => {
                assert(!index_ok(values@.len(), indices@, None, k as int));
                return Err(e);
            },
        };
        assert(!CHECKED ==> index_ok(values@.len(), indices@, None, k as int));
        let value = match get_value::<T, CHECKED>(values, offset) {
            Ok(value) => value,
            Err(e) => {
                assert(!index_ok(values@.len(), indices@, None, k as int));
                return Err(e);
            },
        };
        out.push(value);
        assert(index_ok(values@.len(), indices@, None, k as int));
        k += 1;
        assert(out@ =~= want.take(k as int));
    }
    assert(want.take(k as int) =~= want);
    Ok((Buffer::from_vec(out), None))
}

/// Gathers where only the source has null slots. The source must have a mask.
fn take_values_validity<T: NativeType, I: Index, const CHECKED: bool>(
    values: &PrimitiveArray<T>,
    indices: &[I],
) -> (r:
    Result<(Buffer<T>, Option<Bitmap>), ArrowError>)
    requires
        !CHECKED ==> all_in_bounds(values.values_view().len(), indices@, None),
        values.validity_view() is Some,
    ensures
        match r {
            Ok((buffer, validity)) => all_in_bounds(values.values_view().len(), indices@, None)
                && buffer@ == taken_values(
                values.values_view(),
                indices@,
                None,
                T::default_value(),
            ) && mask_view(validity) == Some(
                gathered_mask(values.validity_view()->0, indices@, None),
            ),
            Err(e) => e is KeyOverflowError && !all_in_bounds(
                values.values_view().len(),
                indices@,
                None,
            ),
        },
{
    let mut validity = MutableBitmap::with_capacity(indices.len());
    let source_validity = values.validity().as_ref().unwrap();
    let source = values.values().as_slice();
    let _ = source.len();
    let ghost want = taken_values(source@, indices@, None, T::default_value());
    let ghost want_mask = gathered_mask(source_validity@, indices@, None);
    let mut out: Vec<T> = Vec::with_capacity(indices.len());
    let mut k: usize = 0;
    while k < indices.len()
        invariant
            k <= indices@.len(),
            source@ == values.values_view(),
            Some(source_validity@) == values.validity_view(),
            source@.len() == source_validity@.len(),
            source@.len() <= usize::MAX,
            want == taken_values(source@, indices@, None, T::default_value()),
            want_mask == gathered_mask(source_validity@, indices@, None),
            !CHECKED ==> all_in_bounds(source@.len(), indices@, None),
            forall|j: int| 0 <= j < k ==> #[trigger] index_ok(source@.len(), indices@, None, j),
            out@ == want.take(k as int),
            validity.wf(),
            validity@ == want_mask.take(k as int),
        decreases indices@.len() - k,
    {
        let offset = match maybe_usize(indices[k]) {
            Ok(offset) => offset,
            Err(e) => {
                assert(!index_ok(source@.len(), indices@, None, k as int));
                return Err(e);
            },
        };
        assert(!CHECKED ==> index_ok(source@.len(), indices@, None, k as int));
        let (value, is_valid) = match get_value_and_validity::<T, CHECKED>(
            source,
            source_validity,
            offset,
        ) {
            Ok(pair) => pair,
            Err(e) => {
                assert(!index_ok(source@.len(), indices@, None, k as int));
                return Err(e);
            },
        };
        if is_valid {
            validity.push(true);
        } else {
            validity.push(false);
        }
        out.push(value);
        assert(index_ok(source@.len(), indices@, None, k as int));
        k += 1;
        assert(out@ =~= want.take(k as int));
        assert(validity@ =~= want_mask.take(k as int));
    }
    assert(want.take(k as int) =~= want);
    assert(want_mask.take(k as int) =~= want_mask);
    Ok((Buffer::from_vec(out), Some(Bitmap::from_mutable(validity))))
}

/// Gathers where only the indices have null slots.
fn take_indices_validity<T: NativeType, I: Index, const CHECKED: bool>(
    values: &[T],
    indices: &PrimitiveArray<I>,
) -> (r:
    Result<(Buffer<T>, Option<Bitmap>), ArrowError>)
    requires
        !CHECKED ==> all_in_bounds(
            values@.len(),
            indices.values_view(),
            indices.validity_view(),
        ),
    ensures
        match r {
            Ok((buffer, validity)) => all_in_bounds(
                values@.len(),
                indices.values_view(),
                indices.validity_view(),
            ) && buffer@ == taken_values(
                values@,
                indices.values_view(),
                indices.validity_view(),
                T::default_value(),
            ) && mask_view(validity) == indices.validity_view(),
            Err(e) => e is KeyOverflowError && !all_in_bounds(
                values@.len(),
                indices.values_view(),
                indices.validity_view(),
            ),
        },
{
    let ghost idx = indices.values_view();
    let ghost iv = indices.validity_view();
    let ghost want = taken_values(values@, idx, iv, T::default_value());
    let count = indices.len();
    let _ = values.len();
    let mut out: Vec<T> = Vec::with_capacity(count);
    let mut k: usize = 0;
    while k < count
        invariant
            k <= count,
            count == idx.len(),
            idx == indices.values_view(),
            iv == indices.validity_view(),
            indices@.len() == count,
            values@.len() <= usize::MAX,
            want == taken_values(values@, idx, iv, T::default_value()),
            !CHECKED ==> all_in_bounds(values@.len(), idx, iv),
            forall|j: int| 0 <= j < k ==> #[trigger] index_ok(values@.len(), idx, iv, j),
            out@ == want.take(k as int),
        decreases count - k,
    {
        let value = match indices.get(k) {
            Some(index) => {
                let offset = match maybe_usize(index) {
                    Ok(offset) => offset,
                    Err(e) => {
                        assert(!index_ok(values@.len(), idx, iv, k as int));
                        return Err(e);
                    },
                };
                assert(!CHECKED ==> index_ok(values@.len(), idx, iv, k as int));
                match get_value::<T, CHECKED>(values, offset) {
                    Ok(value) => value,
                    Err(e) => {
                        assert(!index_ok(values@.len(), idx, iv, k as int));
                        return Err(e);
                    },
                }
            },
            None => T::default_native(),
        };
        out.push(value);
        assert(index_ok(values@.len(), idx, iv, k as int));
        k += 1;
        assert(out@ =~= want.take(k as int));
    }
    assert(want.take(k as int) =~= want);
    let validity = match indices.validity() {
        Some(bitmap) => Some(bitmap.clone()),
        None => None,
    };
    Ok((Buffer::from_vec(out), validity))
}

/// Gathers where both the source and the indices have null slots. The source
/// must have a mask.
fn take_values_indices_validity<T: NativeType, I: Index, const CHECKED: bool>(
    values: &PrimitiveArray<T>,
    indices: &PrimitiveArray<I>,
) -> (r: Result<(Buffer<T>, Option<Bitmap>), ArrowError>)
    requires
        !CHECKED ==> all_in_bounds(
            values.values_view().len(),
            indices.values_view(),
            indices.validity_view(),
        ),
        values.validity_view() is Some,
    ensures
        match r {
            Ok((buffer, validity)) => all_in_bounds(
                values.values_view().len(),
                indices.values_view(),
                indices.validity_view(),
            ) && buffer@ == taken_values(
                values.values_view(),
                indices.values_view(),
                indices.validity_view(),
                T::default_value(),
            ) && mask_view(validity) == Some(
                gathered_mask(
                    values.validity_view()->0,
                    indices.values_view(),
                    indices.validity_view(),
                ),
            ),
            Err(e) => e is KeyOverflowError && !all_in_bounds(
                values.values_view().len(),
                indices.values_view(),
                indices.validity_view(),
            ),
        },
{
    let count = indices.len();
    let mut validity = MutableBitmap::with_capacity(count);
    let source_validity = values.validity().as_ref().unwrap();
    let source = values.values().as_slice();
    let _ = source.len();
    let ghost idx = indices.values_view();
    let ghost iv = indices.validity_view();
    let ghost want = taken_values(source@, idx, iv, T::default_value());
    let ghost want_mask = gathered_mask(source_validity@, idx, iv);
    let mut out: Vec<T> = Vec::with_capacity(count);
    let mut k: usize = 0;
    while k < count
        invariant
            k <= count,
            count == idx.len(),
            idx == indices.values_view(),
            iv == indices.validity_view(),
            indices@.len() == count,
            source@ == values.values_view(),
            Some(source_validity@) == values.validity_view(),
            source@.len() == source_validity@.len(),
            source@.len() <= usize::MAX,
            want == taken_values(source@, idx, iv, T::default_value()),
            want_mask == gathered_mask(source_validity@, idx, iv),
            !CHECKED ==> all_in_bounds(source@.len(), idx, iv),
            forall|j: int| 0 <= j < k ==> #[trigger] index_ok(source@.len(), idx, iv, j),
            out@ == want.take(k as int),
            validity.wf(),
            validity@ == want_mask.take(k as int),
        decreases count - k,
    {
        match indices.get(k) {
            Some(index) => {
                let offset = match maybe_usize(index) {
                    Ok(offset) => offset,
                    Err(e) => {
                        assert(!index_ok(source@.len(), idx, iv, k as int));
                        return Err(e);
                    },
                };
                assert(!CHECKED ==> index_ok(source@.len(), idx, iv, k as int));
                let (value, is_valid) = match get_value_and_validity::<T, CHECKED>(
                    source,
                    source_validity,
                    offset,
                ) {
                    Ok(pair) => pair,
                    Err(e) => {
                        assert(!index_ok(source@.len(), idx, iv, k as int));
                        return Err(e);
                    },
                };
                validity.push(is_valid);
                out.push(value);
            },
            None => {
                validity.push(false);
                out.push(T::default_native());
            },
        }
        assert(index_ok(source@.len(), idx, iv, k as int));
        k += 1;
        assert(out@ =~= want.take(k as int));
        assert(validity@ =~= want_mask.take(k as int));
    }
    assert(want.take(k as int) =~= want);
    assert(want_mask.take(k as int) =~= want_mask);
    Ok((Buffer::from_vec(out), Some(Bitmap::from_mutable(validity))))
}

/// Gathers the elements of `values` that `indices` address, in the order of
/// the indices. A null index gives a null slot that holds the default value.
/// Every non-null index is validated; the first one that addresses no element
/// ends the gather with the index error.
pub fn take<T: NativeType, I: Index>(values: &PrimitiveArray<T>, indices: &PrimitiveArray<I>) -> (r:
    Result<PrimitiveArray<T>, ArrowError>)
    ensures
        match r {
            Ok(out) => checked_gathered(
                values.values_view(),
                values.validity_view(),
                indices.values_view(),
                indices.validity_view(),
                T::default_value(),
            ) == Some((out.values_view(), out.validity_view())) && out.data_type_view()
                == values.data_type_view(),
            Err(e) => e is KeyOverflowError && !all_in_bounds(
                values.values_view().len(),
                indices.values_view(),
                indices.validity_view(),
            ),
        },
{
    let indices_has_validity = indices.null_count() > 0;
    let values_has_validity = values.null_count() > 0;
    let _ = indices.validity();
    let _ = values.validity();
    proof {
        if !indices_has_validity {
            lemma_no_null_indices(
                values.values_view(),
                if values.validity_view() is Some {
                    values.validity_view()->0
                } else {
                    Seq::empty()
                },
                indices.values_view(),
                indices.validity_view(),
                T::default_value(),
            );
        }
    }
    let (buffer, validity) = if !values_has_validity && !indices_has_validity {
        take_no_validity::<T, I, true>(values.values().as_slice(), indices.values().as_slice())?
    } else if values_has_validity && !indices_has_validity {
        take_values_validity::<T, I, true>(values, indices.values().as_slice())?
    } else if !values_has_validity {
        take_indices_validity::<T, I, true>(values.values().as_slice(), indices)?
    } else {
        take_values_indices_validity::<T, I, true>(values, indices)?
    };
    Ok(PrimitiveArray::<T>::from_data(*values.data_type(), buffer, validity))
}

/// Gathers as `take` does, for indices that the caller has shown to be in
/// bounds: it reads each addressed slot directly and never fails.
pub fn take_unchecked<T: NativeType, I: Index>(
    values: &PrimitiveArray<T>,
    indices: &PrimitiveArray<I>,
) -> (r: Result<PrimitiveArray<T>, ArrowError>)
    requires
        all_in_bounds(
            values.values_view().len(),
            indices.values_view(),
            indices.validity_view(),
        ),
    ensures
        r is Ok,
        (r->Ok_0.values_view(), r->Ok_0.validity_view()) == gathered(
            values.values_view(),
            values.validity_view(),
            indices.values_view(),
            indices.validity_view(),
            T::default_value(),
        ),
        r->Ok_0.data_type_view() == values.data_type_view(),
{
    let indices_has_validity = indices.null_count() > 0;
    let values_has_validity = values.null_count() > 0;
    let _ = indices.validity();
    let _ = values.validity();
    proof {
        if !indices_has_validity {
            lemma_no_null_indices(
                values.values_view(),
                if values.validity_view() is Some {
                    values.validity_view()->0
                } else {
                    Seq::empty()
                },
                indices.values_view(),
                indices.validity_view(),
                T::default_value(),
            );
        }
    }
    let (buffer, validity) = if !values_has_validity && !indices_has_validity {
        take_no_validity::<T, I, false>(values.values().as_slice(), indices.values().as_slice())?
    } else if values_has_validity && !indices_has_validity {
        take_values_validity::<T, I, false>(values, indices.values().as_slice())?
    } else if !values_has_validity {
        take_indices_validity::<T, I, false>(values.values().as_slice(), indices)?
    } else {
        take_values_indices_validity::<T, I, false>(values, indices)?
    };
    Ok(PrimitiveArray::<T>::from_data(*values.data_type(), buffer, validity))
}

} // verus!
