//! Arrays: a values region paired with an optional validity mask.

use vstd::prelude::*;
use crate::bitmap::Bitmap;
use crate::bitmap::count_unset;

pub mod primitive;
pub mod boolean;
pub mod fixed_size_binary;

verus! {

/// What an optional mask holds, as a plain sequence.
pub open spec fn mask_view(mask: Option<Bitmap>) -> Option<Seq<bool>> {
    match mask {
        Some(bitmap) => Some(bitmap@),
        None => None,
    }
}

/// Whether slot `k` is null under `validity`; an absent mask has no null slot.
pub open spec fn is_null(validity: Option<Seq<bool>>, k: int) -> bool {
    validity is Some && !validity->0[k]
}

/// Number of null slots under `validity`.
pub open spec fn null_count_of(validity: Option<Seq<bool>>) -> nat {
    match validity {
        Some(bits) => count_unset(bits),
        None => 0,
    }
}

/// The elements that an array stands for: `None` in a null slot, else the
/// slot's value.
pub open spec fn logical<T>(values: Seq<T>, validity: Option<Seq<bool>>) -> Seq<Option<T>> {
    Seq::new(
        values.len(),
        |k: int|
            if is_null(validity, k) {
                None
            } else {
                Some(values[k])
            },
    )
}

/// A mask fits values where it is absent or covers each of them.
pub open spec fn mask_fits(len: nat, validity: Option<Seq<bool>>) -> bool {
    validity is Some ==> validity->0.len() == len
}

} // verus!
