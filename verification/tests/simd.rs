use columnar::compute::comparison::simd::native::Lanes8;

#[test]
fn partial_chunk_padded_with_one_of_its_values() {
    let (a, b) = (3i32, 8i32);
    let lanes = Lanes8::from_incomplete_chunk(&[a, b], a);
    let all_a = Lanes8::from_chunk(&[a; 8]);
    let mask = lanes.eq(all_a);
    assert_eq!(mask, 0b1111_1101);
    assert_ne!(mask & 1, 0);
    assert_eq!(mask & 2, 0);
    for lane in 2..8 {
        assert_ne!(mask & (1 << lane), 0);
    }
    let same = Lanes8::from_incomplete_chunk(&[a, a], a).eq(all_a);
    assert_eq!(same, 0b1111_1111);
}

#[test]
fn full_chunk_comparisons() {
    let left = Lanes8::from_chunk(&[1u8, 2, 3, 4, 5, 6, 7, 8]);
    let right = Lanes8::from_chunk(&[1u8, 3, 2, 4, 6, 5, 7, 9]);
    assert_eq!(left.eq(right), 0b0100_1001);
    assert_eq!(left.neq(right), 0b1011_0110);
    assert_eq!(left.lt(right), 0b1001_0010);
    assert_eq!(left.lt_eq(right), 0b1101_1011);
    assert_eq!(left.gt(right), 0b0010_0100);
    assert_eq!(left.gt_eq(right), 0b0110_1101);
}

#[test]
fn signed_lanes_order_by_value() {
    let left = Lanes8::from_chunk(&[-1i64, 0, i64::MIN, i64::MAX, 5, -5, 2, 2]);
    let right = Lanes8::from_chunk(&[0i64; 8]);
    assert_eq!(left.lt(right), 0b0010_0101);
    assert_eq!(left.gt(right), 0b1101_1000);
    assert_eq!(left.eq(right), 0b0000_0010);
}

#[test]
fn incomplete_chunk_of_any_length() {
    let empty: [u16; 0] = [];
    let lanes = Lanes8::from_incomplete_chunk(&empty, 4u16);
    assert_eq!(lanes.eq(Lanes8::from_chunk(&[4u16; 8])), 0xff);
    let long = [1u16, 2, 3, 4, 5, 6, 7, 8, 9, 10];
    let lanes = Lanes8::from_incomplete_chunk(&long, 0u16);
    assert_eq!(lanes.eq(Lanes8::from_chunk(&[1u16, 2, 3, 4, 5, 6, 7, 8])), 0xff);
    let seven = [9i128; 7];
    let lanes = Lanes8::from_incomplete_chunk(&seven, 1i128);
    assert_eq!(lanes.eq(Lanes8::from_chunk(&[9i128; 8])), 0b0111_1111);
}
