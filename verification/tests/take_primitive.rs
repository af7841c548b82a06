use columnar::array::primitive::PrimitiveArray;
use columnar::bitmap::Bitmap;
use columnar::buffer::Buffer;
use columnar::compute::take::maybe_usize;
use columnar::compute::take::primitive::{take, take_unchecked};
use columnar::datatypes::DataType;
use columnar::error::ArrowError;

#[test]
fn primitive_take_without_nulls() {
    let values = PrimitiveArray::<i64>::from_options(&[Some(10), Some(20), Some(30)]);
    let indices = PrimitiveArray::<u32>::from_options(&[Some(2), Some(0), Some(2), Some(1)]);
    let out = take(&values, &indices).unwrap();
    assert_eq!(out.to_options(), vec![Some(30), Some(10), Some(30), Some(20)]);
    assert!(out.validity().is_none());
    assert_eq!(*out.data_type(), DataType::Int64);
}

#[test]
fn primitive_take_with_null_values() {
    let values = PrimitiveArray::<i32>::from_options(&[None, Some(7), Some(9)]);
    let indices = PrimitiveArray::<i32>::from_options(&[Some(1), Some(0), Some(2)]);
    let out = take(&values, &indices).unwrap();
    assert_eq!(out.to_options(), vec![Some(7), None, Some(9)]);
    assert_eq!(out.null_count(), 1);
}

#[test]
fn primitive_take_with_null_indices() {
    let values = PrimitiveArray::<u8>::from_options(&[Some(5), Some(6)]);
    let indices = PrimitiveArray::<i64>::from_options(&[None, Some(1), Some(0)]);
    let out = take(&values, &indices).unwrap();
    assert_eq!(out.to_options(), vec![None, Some(6), Some(5)]);
    assert_eq!(out.values().as_slice(), &[0u8, 6, 5][..]);
}

#[test]
fn primitive_take_with_nulls_on_both_sides() {
    let values = PrimitiveArray::<i16>::from_options(&[None, Some(-4)]);
    let indices = PrimitiveArray::<u64>::from_options(&[Some(1), None, Some(0)]);
    let out = take(&values, &indices).unwrap();
    assert_eq!(out.to_options(), vec![Some(-4), None, None]);
    assert_eq!(out.null_count(), 2);
}

#[test]
fn primitive_take_ignores_a_mask_without_nulls() {
    let values = PrimitiveArray::<i32>::from_data(
        DataType::Int32,
        Buffer::from_vec(vec![1, 2]),
        Some(Bitmap::from_bools(vec![true, true])),
    );
    let indices = PrimitiveArray::<i32>::from_options(&[Some(1), Some(1)]);
    let out = take(&values, &indices).unwrap();
    assert!(out.validity().is_none());
    assert_eq!(out.to_options(), vec![Some(2), Some(2)]);
}

#[test]
fn primitive_out_of_range_index_is_refused() {
    let values = PrimitiveArray::<i32>::from_options(&[Some(1), Some(2)]);
    let indices = PrimitiveArray::<i32>::from_options(&[Some(0), Some(2)]);
    assert!(matches!(take(&values, &indices), Err(ArrowError::KeyOverflowError)));
    let indices = PrimitiveArray::<i64>::from_options(&[Some(-1)]);
    assert!(matches!(take(&values, &indices), Err(ArrowError::KeyOverflowError)));
    let indices = PrimitiveArray::<i64>::from_options(&[None, Some(9)]);
    assert!(matches!(take(&values, &indices), Err(ArrowError::KeyOverflowError)));
    let with_nulls = PrimitiveArray::<i32>::from_options(&[None, Some(2)]);
    let indices = PrimitiveArray::<i32>::from_options(&[Some(2)]);
    assert!(matches!(take(&with_nulls, &indices), Err(ArrowError::KeyOverflowError)));
}

#[test]
fn primitive_unchecked_matches_checked() {
    let values = PrimitiveArray::<i32>::from_options(&[None, Some(7), Some(9)]);
    let indices = PrimitiveArray::<i32>::from_options(&[Some(2), None, Some(0), Some(1)]);
    let checked = take(&values, &indices).unwrap();
    let unchecked = take_unchecked(&values, &indices).unwrap();
    assert_eq!(checked.to_options(), unchecked.to_options());
    assert_eq!(unchecked.to_options(), vec![Some(9), None, None, Some(7)]);
    assert_eq!(checked.values().as_slice(), unchecked.values().as_slice());
}

#[test]
fn index_to_offset() {
    assert!(matches!(maybe_usize(3i32), Ok(3)));
    assert!(matches!(maybe_usize(0u64), Ok(0)));
    assert!(matches!(maybe_usize(-1i64), Err(ArrowError::KeyOverflowError)));
    assert!(matches!(maybe_usize(i32::MIN), Err(ArrowError::KeyOverflowError)));
    assert!(matches!(maybe_usize(u32::MAX), Ok(4294967295)));
}

#[test]
fn bitmap_counts_its_unset_bits() {
    let bitmap = Bitmap::from_bools(vec![true, false, false, true]);
    assert_eq!(bitmap.len(), 4);
    assert_eq!(bitmap.null_count(), 2);
    assert_eq!(bitmap.get(1), Some(false));
    assert_eq!(bitmap.get(3), Some(true));
    assert_eq!(bitmap.get(4), None);
    assert_eq!(bitmap.clone().null_count(), 2);
}
