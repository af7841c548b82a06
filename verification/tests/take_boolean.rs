use columnar::array::boolean::BooleanArray;
use columnar::array::primitive::PrimitiveArray;
use columnar::compute::take::boolean::{take, take_unchecked};
use columnar::error::ArrowError;

type Int32Array = PrimitiveArray<i32>;

fn _all_cases() -> Vec<(Int32Array, BooleanArray, BooleanArray)> {
    vec![
        (
            Int32Array::from(&[Some(1), Some(0)]),
            BooleanArray::from(vec![Some(true), Some(false)]),
            BooleanArray::from(vec![Some(false), Some(true)]),
        ),
        (
            Int32Array::from(&[Some(1), None]),
            BooleanArray::from(vec![Some(true), Some(false)]),
            BooleanArray::from(vec![Some(false), None]),
        ),
        (
            Int32Array::from(&[Some(1), Some(0)]),
            BooleanArray::from(vec![None, Some(false)]),
            BooleanArray::from(vec![Some(false), None]),
        ),
        (
            Int32Array::from(&[Some(1), None, Some(0)]),
            BooleanArray::from(vec![None, Some(false)]),
            BooleanArray::from(vec![Some(false), None, None]),
        ),
    ]
}

#[test]
fn all_cases() -> Result<(), ArrowError> {
    let cases = _all_cases();
    for (indices, input, expected) in cases {
        let output = take(&input, &indices)?;
        assert_eq!(expected, output);
    }
    Ok(())
}

#[test]
fn boolean_unchecked_matches_checked() {
    for (indices, input, expected) in _all_cases() {
        let checked = take(&input, &indices).unwrap();
        let unchecked = take_unchecked(&input, &indices).unwrap();
        assert_eq!(checked.to_options(), unchecked.to_options());
        assert_eq!(expected.to_options(), unchecked.to_options());
    }
}

#[test]
fn boolean_mask_presence_follows_the_nulls() {
    let values = BooleanArray::from(vec![Some(true), Some(false)]);
    let indices = Int32Array::from_options(&[Some(1), Some(0)]);
    let out = take(&values, &indices).unwrap();
    assert!(out.validity().is_none());
    assert_eq!(out.null_count(), 0);

    let indices = Int32Array::from_options(&[Some(1), None]);
    let out = take(&values, &indices).unwrap();
    assert_eq!(out.null_count(), 1);
    assert_eq!(out.len(), 2);

    let values = BooleanArray::from(vec![None, Some(true)]);
    let indices = Int32Array::from_options(&[Some(1), Some(0), Some(1)]);
    let out = take(&values, &indices).unwrap();
    assert_eq!(out.to_options(), vec![Some(true), None, Some(true)]);
    assert_eq!(out.null_count(), 1);
}

#[test]
fn boolean_out_of_range_index_is_refused() {
    let values = BooleanArray::from(vec![Some(true), Some(false)]);
    let indices = Int32Array::from_options(&[Some(0), Some(2)]);
    assert!(matches!(take(&values, &indices), Err(ArrowError::KeyOverflowError)));
    let indices = Int32Array::from_options(&[Some(-1)]);
    assert!(matches!(take(&values, &indices), Err(ArrowError::KeyOverflowError)));
    let with_nulls = BooleanArray::from(vec![None, Some(false)]);
    let indices = Int32Array::from_options(&[None, Some(5)]);
    assert!(matches!(take(&with_nulls, &indices), Err(ArrowError::KeyOverflowError)));
    assert!(matches!(take(&values, &indices), Err(ArrowError::KeyOverflowError)));
}

#[test]
fn boolean_null_index_needs_no_bounds() {
    let values = BooleanArray::from(vec![Some(true)]);
    let indices = Int32Array::from_options(&[None, Some(0)]);
    let out = take(&values, &indices).unwrap();
    assert_eq!(out.to_options(), vec![None, Some(true)]);
}

#[test]
fn boolean_empty_indices_give_an_empty_array() {
    let values = BooleanArray::from(vec![Some(true)]);
    let indices = Int32Array::from_options(&[]);
    let out = take(&values, &indices).unwrap();
    assert_eq!(out.len(), 0);
}

#[test]
fn boolean_arrays_compare_by_their_elements() {
    let a = BooleanArray::from(vec![Some(true), None]);
    let b = BooleanArray::from(vec![Some(true), None]);
    let c = BooleanArray::from(vec![Some(true), Some(false)]);
    assert_eq!(a, b);
    assert_ne!(a, c);
    assert_ne!(a, BooleanArray::from(vec![Some(true)]));
}
