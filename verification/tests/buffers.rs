use columnar::array::boolean::BooleanArray;
use columnar::array::primitive::PrimitiveArray;
use columnar::bitmap::{Bitmap, MutableBitmap};
use columnar::buffer::{Buffer, MutableBuffer};
use columnar::compute::take::boolean::take;

#[test]
fn mutable_bitmap_across_byte_boundaries() {
    let mut bits = MutableBitmap::new();
    let pattern: Vec<bool> = (0..21).map(|i| i % 3 != 0).collect();
    for &b in &pattern {
        bits.push(b);
    }
    assert!(bits.is_valid());
    assert_eq!(bits.len(), 21);
    for (i, &b) in pattern.iter().enumerate() {
        assert_eq!(bits.get(i), b);
    }
    bits.set(8, false);
    bits.set(0, true);
    bits.set(20, false);
    assert!(!bits.get(8));
    assert!(bits.get(0));
    assert!(!bits.get(20));
    assert!(bits.get(7));
    assert!(!bits.get(9));
    bits.extend_constant(5, true);
    assert_eq!(bits.len(), 26);
    assert!(bits.get(25));
    assert!(bits.is_valid());
    let frozen = Bitmap::from_mutable(bits);
    assert_eq!(frozen.len(), 26);
    assert_eq!(frozen.get(8), Some(false));
    assert_eq!(frozen.get(25), Some(true));
    assert_eq!(frozen.get(26), None);
    let expected_unset = 6 + 1 + 1;
    assert_eq!(frozen.null_count(), expected_unset);
}

#[test]
fn bitmap_from_bools_packs_in_order() {
    let bools = vec![true, false, true, true, false, false, true, false, true, true];
    let bitmap = Bitmap::from_bools(bools.clone());
    assert_eq!(bitmap.len(), 10);
    for (i, &b) in bools.iter().enumerate() {
        assert_eq!(bitmap.get(i), Some(b));
        assert_eq!(bitmap.get_bit(i), b);
    }
    assert_eq!(bitmap.null_count(), 4);
    let shared = bitmap.clone();
    assert_eq!(shared.get(8), Some(true));
    assert_eq!(shared.len(), 10);
    let empty = Bitmap::from_bools(vec![]);
    assert_eq!(empty.len(), 0);
    assert_eq!(empty.null_count(), 0);
    assert_eq!(empty.get(0), None);
}

#[test]
fn buffer_slices_share_the_values() {
    let buffer = Buffer::from_vec(vec![1u32, 2, 3, 4, 5]);
    assert_eq!(buffer.len(), 5);
    let middle = buffer.slice(1, 3);
    assert_eq!(middle.as_slice(), &[2u32, 3, 4][..]);
    let inner = middle.slice(2, 1);
    assert_eq!(inner.as_slice(), &[4u32][..]);
    assert_eq!(middle.slice(3, 0).len(), 0);
    assert_eq!(buffer.clone().as_slice(), &[1u32, 2, 3, 4, 5][..]);
    assert_eq!(buffer.as_slice(), &[1u32, 2, 3, 4, 5][..]);
}

#[test]
fn mutable_buffer_grows() {
    let mut buffer = MutableBuffer::<u8>::with_capacity(2);
    buffer.push(1);
    buffer.extend_from_slice(&[2, 3]);
    buffer.extend_constant(2, 9);
    assert_eq!(buffer.len(), 5);
    assert_eq!(buffer.as_slice(), &[1u8, 2, 3, 9, 9][..]);
    buffer.as_mut_slice()[0] = 7;
    let frozen = Buffer::from_mutable(buffer);
    assert_eq!(frozen.as_slice(), &[7u8, 2, 3, 9, 9][..]);
}

#[test]
fn boolean_take_of_many_slots() {
    let source: Vec<Option<bool>> =
        (0..19).map(|i| if i % 5 == 0 { None } else { Some(i % 2 == 0) }).collect();
    let values = BooleanArray::from(source.clone());
    let picks: Vec<Option<i32>> =
        (0..23).map(|k| if k % 7 == 3 { None } else { Some((k * 5) % 19) }).collect();
    let indices = PrimitiveArray::<i32>::from_options(&picks);
    let out = take(&values, &indices).unwrap();
    let expected: Vec<Option<bool>> =
        picks.iter().map(|p| p.and_then(|i| source[i as usize])).collect();
    assert_eq!(out.to_options(), expected);
    assert_eq!(out.null_count(), expected.iter().filter(|e| e.is_none()).count());
}
