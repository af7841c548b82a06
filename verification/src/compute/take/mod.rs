//! The gather kernel: selects elements of an array by an array of indices.

use vstd::prelude::*;
use crate::array::{is_null, logical, mask_fits, null_count_of};
use crate::bitmap::lemma_count_unset_zero;
use crate::error::ArrowError;
use crate::types::Index;

pub mod boolean;
pub mod primitive;

verus! {

/// Whether slot `k` of the indices may be used against `len` elements: it is
/// null, or it addresses one of them.
pub open spec fn index_ok<I: Index>(
    len: nat,
    indices: Seq<I>,
    indices_validity: Option<Seq<bool>>,
    k: int,
) -> bool {
    is_null(indices_validity, k) || 0 <= indices[k].as_int() < len
}

/// Whether every non-null index addresses one of `len` elements.
pub open spec fn all_in_bounds<I: Index>(
    len: nat,
    indices: Seq<I>,
    indices_validity: Option<Seq<bool>>,
) -> bool {
    forall|k: int| 0 <= k < indices.len() ==> #[trigger] index_ok(len, indices, indices_validity, k)
}

/// The values of the gathered array: slot `k` holds the value that index `k`
/// addresses, or `fill` where that index is null.
pub open spec fn taken_values<T, I: Index>(
    values: Seq<T>,
    indices: Seq<I>,
    indices_validity: Option<Seq<bool>>,
    fill: T,
) -> Seq<T> {
    Seq::new(
        indices.len(),
        |k: int|
            if is_null(indices_validity, k) {
                fill
            } else {
                values[indices[k].as_int()]
            },
    )
}

/// Slot `k` of the gathered mask: index `k` is not null and addresses a valid
/// slot of the source.
pub open spec fn gathered_mask<I: Index>(
    values_validity: Seq<bool>,
    indices: Seq<I>,
    indices_validity: Option<Seq<bool>>,
) -> Seq<bool> {
    Seq::new(
        indices.len(),
        |k: int| !is_null(indices_validity, k) && values_validity[indices[k].as_int()],
    )
}

/// The mask of the gathered array. Where the source has null slots, slot `k`
/// is valid if index `k` is not null and addresses a valid slot. Where only
/// the indices have null slots, it is their mask. Else there is none.
pub open spec fn taken_validity<I: Index>(
    values_validity: Option<Seq<bool>>,
    indices: Seq<I>,
    indices_validity: Option<Seq<bool>>,
) -> Option<Seq<bool>> {
    if null_count_of(values_validity) > 0 {
        Some(gathered_mask(values_validity->0, indices, indices_validity))
    } else if null_count_of(indices_validity) > 0 {
        indices_validity
    } else {
        None
    }
}

/// What a gather of in-bounds indices gives: the values and the mask.
pub open spec fn gathered<T, I: Index>(
    values: Seq<T>,
    values_validity: Option<Seq<bool>>,
    indices: Seq<I>,
    indices_validity: Option<Seq<bool>>,
    fill: T,
) -> (Seq<T>, Option<Seq<bool>>) {
    (
        taken_values(values, indices, indices_validity, fill),
        taken_validity(values_validity, indices, indices_validity),
    )
}

/// What a gather that validates its indices gives: nothing where a non-null
/// index is out of bounds, else the gathered values and mask.
pub open spec fn checked_gathered<T, I: Index>(
    values: Seq<T>,
    values_validity: Option<Seq<bool>>,
    indices: Seq<I>,
    indices_validity: Option<Seq<bool>>,
    fill: T,
) -> Option<(Seq<T>, Option<Seq<bool>>)> {
    if all_in_bounds(values.len(), indices, indices_validity) {
        Some(gathered(values, values_validity, indices, indices_validity, fill))
    } else {
        None
    }
}

/// Indices whose mask has no unset bit behave as indices without a mask.
pub proof fn lemma_no_null_indices<T, I: Index>(
    values: Seq<T>,
    values_validity: Seq<bool>,
    indices: Seq<I>,
    indices_validity: Option<Seq<bool>>,
    fill: T,
)
    requires
        mask_fits(indices.len(), indices_validity),
        null_count_of(indices_validity) == 0,
    ensures
        forall|k: int| 0 <= k < indices.len() ==> !is_null(indices_validity, k),
        all_in_bounds(values.len(), indices, indices_validity) == all_in_bounds(
            values.len(),
            indices,
            None,
        ),
        taken_values(values, indices, indices_validity, fill) == taken_values(
            values,
            indices,
            None,
            fill,
        ),
        gathered_mask(values_validity, indices, indices_validity) == gathered_mask(
            values_validity,
            indices,
            None,
        ),
{
    if indices_validity is Some {
        lemma_count_unset_zero(indices_validity->0);
    }
    assert(forall|k: int| 0 <= k < indices.len() ==> !is_null(indices_validity, k));
    assert forall|k: int| 0 <= k < indices.len() implies index_ok(
        values.len(),
        indices,
        indices_validity,
        k,
    ) == index_ok(values.len(), indices, None, k) by {}
    assert(taken_values(values, indices, indices_validity, fill) =~= taken_values(
        values,
        indices,
        None,
        fill,
    ));
    assert(gathered_mask(values_validity, indices, indices_validity) =~= gathered_mask(
        values_validity,
        indices,
        None,
    ));
}

/// A gather that validates its indices and one that relies on the caller
/// give the same array wherever every non-null index is in bounds.
pub proof fn lemma_checked_agrees_with_unchecked<T, I: Index>(
    values: Seq<T>,
    values_validity: Option<Seq<bool>>,
    indices: Seq<I>,
    indices_validity: Option<Seq<bool>>,
    fill: T,
)
    requires
        all_in_bounds(values.len(), indices, indices_validity),
    ensures
        checked_gathered(values, values_validity, indices, indices_validity, fill) == Some(
            gathered(values, values_validity, indices, indices_validity, fill),
        ),
{
}

/// A validating gather gives nothing as soon as one non-null index
/// addresses no element.
pub proof fn lemma_out_of_bounds_gives_nothing<T, I: Index>(
    values: Seq<T>,
    values_validity: Option<Seq<bool>>,
    indices: Seq<I>,
    indices_validity: Option<Seq<bool>>,
    fill: T,
    k: int,
)
    requires
        0 <= k < indices.len(),
        !is_null(indices_validity, k),
        !(0 <= indices[k].as_int() < values.len()),
    ensures
        checked_gathered(values, values_validity, indices, indices_validity, fill) is None,
{
    assert(!index_ok(values.len(), indices, indices_validity, k));
}

/// Slot `k` of a gather is null exactly where index `k` is null or addresses
/// a null slot of the source. The four combinations of a source and indices
/// with and without a mask follow.
pub proof fn lemma_null_propagation<I: Index>(
    len: nat,
    values_validity: Option<Seq<bool>>,
    indices: Seq<I>,
    indices_validity: Option<Seq<bool>>,
    k: int,
)
    requires
        mask_fits(len, values_validity),
        mask_fits(indices.len(), indices_validity),
        0 <= k < indices.len(),
        index_ok(len, indices, indices_validity, k),
    ensures
        mask_fits(indices.len(), taken_validity(values_validity, indices, indices_validity)),
        is_null(taken_validity(values_validity, indices, indices_validity), k) == (is_null(
            indices_validity,
            k,
        ) || is_null(values_validity, indices[k].as_int())),
        values_validity is None && indices_validity is None ==> !is_null(
            taken_validity(values_validity, indices, indices_validity),
            k,
        ),
        values_validity is Some && indices_validity is None ==> is_null(
            taken_validity(values_validity, indices, indices_validity),
            k,
        ) == !values_validity->0[indices[k].as_int()],
        values_validity is None && indices_validity is Some ==> is_null(
            taken_validity(values_validity, indices, indices_validity),
            k,
        ) == !indices_validity->0[k],
        values_validity is Some && indices_validity is Some ==> is_null(
            taken_validity(values_validity, indices, indices_validity),
            k,
        ) == (!indices_validity->0[k] || !values_validity->0[indices[k].as_int()]),
{
    if values_validity is Some {
        lemma_count_unset_zero(values_validity->0);
    }
    if indices_validity is Some {
        lemma_count_unset_zero(indices_validity->0);
    }
}

/// Slot `k` of a gather holds the element that index `k` addresses, and is
/// null where that index is null: with every index non-null and in bounds,
/// the gather of `V` by `I` holds `V[I[k]]` in slot `k`, null only where
/// `V[I[k]]` is.
pub proof fn lemma_take_selects<T, I: Index>(
    values: Seq<T>,
    values_validity: Option<Seq<bool>>,
    indices: Seq<I>,
    indices_validity: Option<Seq<bool>>,
    fill: T,
    k: int,
)
    requires
        mask_fits(values.len(), values_validity),
        mask_fits(indices.len(), indices_validity),
        0 <= k < indices.len(),
        index_ok(values.len(), indices, indices_validity, k),
    ensures
        ({
            let out = gathered(values, values_validity, indices, indices_validity, fill);
            &&& out.0.len() == indices.len()
            &&& mask_fits(out.0.len(), out.1)
            &&& logical(out.0, out.1)[k] == if is_null(indices_validity, k) {
                None
            } else {
                logical(values, values_validity)[indices[k].as_int()]
            }
        }),
{
    lemma_null_propagation(values.len(), values_validity, indices, indices_validity, k);
}

/// The memory offset of an index, or the index error where it has none.
pub fn maybe_usize<I: Index>(index: I) -> (r: Result<usize, ArrowError>)
    ensures
        match r {
            Ok(offset) => 0 <= index.as_int() <= usize::MAX && offset == index.as_int(),
            Err(e) => e is KeyOverflowError && !(0 <= index.as_int() <= usize::MAX),
        },
{
    match index.to_usize() {
        Some(offset) => Ok(offset),
        None => Err(ArrowError::KeyOverflowError),
    }
}

} // verus!
