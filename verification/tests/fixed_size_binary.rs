use columnar::array::fixed_size_binary::mutable::MutableFixedSizeBinaryArray;
use columnar::array::fixed_size_binary::FixedSizeBinaryArray;
use columnar::bitmap::MutableBitmap;
use columnar::buffer::MutableBuffer;
use columnar::datatypes::DataType;
use columnar::error::ArrowError;

fn mask_of(array: &MutableFixedSizeBinaryArray) -> Option<Vec<bool>> {
    array.validity().as_ref().map(|bits| (0..bits.len()).map(|i| bits.get(i)).collect())
}

#[test]
fn push_keeps_the_mask_absent_until_the_first_null() {
    let mut array = MutableFixedSizeBinaryArray::new(2);
    assert_eq!(array.len(), 0);
    array.try_push(Some(&[1u8, 2][..])).unwrap();
    array.try_push(Some(&[3u8, 4][..])).unwrap();
    assert_eq!(array.len(), 2);
    assert!(array.validity().is_none());
    assert_eq!(array.values().as_slice(), &[1u8, 2, 3, 4][..]);
}

#[test]
fn first_null_backfills_the_mask() {
    let mut array = MutableFixedSizeBinaryArray::new(2);
    array.try_push(Some(&[1u8, 2][..])).unwrap();
    array.try_push(Some(&[3u8, 4][..])).unwrap();
    array.try_push(None).unwrap();
    assert_eq!(mask_of(&array), Some(vec![true, true, false]));
    array.try_push(Some(&[5u8, 6][..])).unwrap();
    array.try_push(None).unwrap();
    assert_eq!(mask_of(&array), Some(vec![true, true, false, true, false]));
    assert_eq!(array.values().as_slice(), &[1u8, 2, 3, 4, 0, 0, 5, 6, 0, 0][..]);
    assert_eq!(array.len(), 5);
}

#[test]
fn null_as_first_element() {
    let mut array = MutableFixedSizeBinaryArray::new(3);
    array.try_push(None).unwrap();
    assert_eq!(mask_of(&array), Some(vec![false]));
    assert_eq!(array.value(0), &[0u8, 0, 0][..]);
}

#[test]
fn wrong_length_is_refused_and_changes_nothing() {
    let mut array = MutableFixedSizeBinaryArray::new(2);
    array.try_push(Some(&[1u8, 2][..])).unwrap();
    let r = array.try_push(Some(&[1u8, 2, 3][..]));
    match r {
        Err(ArrowError::InvalidArgumentError(message)) => assert_eq!(
            message,
            "FixedSizeBinaryArray requires every item to be of its length"
        ),
        _ => panic!("a wrong length must be refused"),
    }
    assert_eq!(array.len(), 1);
    assert_eq!(array.values().as_slice(), &[1u8, 2][..]);
    assert!(array.validity().is_none());
    let r = array.try_push(Some(&[][..]));
    assert!(matches!(r, Err(ArrowError::InvalidArgumentError(_))));
    assert_eq!(array.len(), 1);
}

#[test]
fn round_trip_through_the_frozen_array() {
    let mut array = MutableFixedSizeBinaryArray::with_capacity(2, 4);
    array.push(Some(&[1u8, 2][..]));
    array.push(None);
    array.push(Some(&[5u8, 6][..]));
    array.push_null();
    assert_eq!(array.value(2), &[5u8, 6][..]);
    let frozen = FixedSizeBinaryArray::from_mutable(array);
    assert_eq!(frozen.len(), 4);
    assert_eq!(frozen.size(), 2);
    assert_eq!(frozen.value(0), &[1u8, 2][..]);
    assert_eq!(frozen.value(1), &[0u8, 0][..]);
    assert_eq!(frozen.value(2), &[5u8, 6][..]);
    assert_eq!(frozen.value(3), &[0u8, 0][..]);
    assert_eq!(frozen.null_count(), 2);
    let mask = frozen.validity().as_ref().unwrap();
    assert_eq!(
        (mask.get(0), mask.get(1), mask.get(2), mask.get(3)),
        (Some(true), Some(false), Some(true), Some(false))
    );
    assert_eq!(*frozen.data_type(), DataType::FixedSizeBinary(2));
}

#[test]
fn try_from_iter_collects_or_refuses() {
    let items: Vec<Option<&[u8]>> = vec![Some(&[1u8, 2][..]), None, Some(&[3u8, 4][..])];
    let array = MutableFixedSizeBinaryArray::try_from_iter(&items, 2).unwrap();
    assert_eq!(array.len(), 3);
    assert_eq!(array.size(), 2);
    assert_eq!(array.values().as_slice(), &[1u8, 2, 0, 0, 3, 4][..]);
    assert_eq!(mask_of(&array), Some(vec![true, false, true]));
    let r = MutableFixedSizeBinaryArray::try_from_iter(&items, 3);
    assert!(matches!(r, Err(ArrowError::InvalidArgumentError(_))));
    let none: Vec<Option<&[u8]>> = vec![];
    let empty = MutableFixedSizeBinaryArray::try_from_iter(&none, 1).unwrap();
    assert_eq!(empty.len(), 0);
}

#[test]
fn from_data_takes_the_parts() {
    let mut values = MutableBuffer::<u8>::new();
    values.extend_from_slice(&[1, 2, 3, 4]);
    let mut mask = MutableBitmap::new();
    mask.push(true);
    mask.push(false);
    let array = MutableFixedSizeBinaryArray::from_data(2, values, Some(mask));
    assert_eq!(array.len(), 2);
    assert_eq!(array.value(1), &[3u8, 4][..]);
    assert_eq!(mask_of(&array), Some(vec![true, false]));
    assert_eq!(*array.data_type(), DataType::FixedSizeBinary(2));
}

#[test]
fn as_arc_leaves_the_builder_empty() {
    let mut array = MutableFixedSizeBinaryArray::new(1);
    array.push(Some(&[9u8][..]));
    array.push(None);
    let shared = array.as_arc();
    assert_eq!(shared.len(), 2);
    assert_eq!(shared.value(0), &[9u8][..]);
    assert_eq!(shared.null_count(), 1);
    assert_eq!(array.len(), 0);
    assert!(array.validity().is_none());
    array.push(Some(&[4u8][..]));
    assert_eq!(array.value(0), &[4u8][..]);
}

#[test]
fn values_can_be_written_in_place() {
    let mut array = MutableFixedSizeBinaryArray::new(2);
    array.push(Some(&[1u8, 2][..]));
    array.values_mut_slice()[1] = 7;
    assert_eq!(array.value(0), &[1u8, 7][..]);
    assert_eq!(array.len(), 1);
}
