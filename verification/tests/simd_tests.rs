use hexx::Hex;

#[test]
fn simd_sums() {
    let vals = [Hex::new(1, 2), Hex::new(3, -4), Hex::new(5, 6), Hex::new(-7, 8)];
    assert_eq!(Hex::simd_sum4(vals), Hex::new(2, 12));
    let vals8 = [
        Hex::new(1, 2),
        Hex::new(3, -4),
        Hex::new(5, 6),
        Hex::new(-7, 8),
        Hex::new(10, 0),
        Hex::new(0, 10),
        Hex::new(-1, -1),
        Hex::new(2, 2),
    ];
    assert_eq!(Hex::simd_sum8(vals8), Hex::new(13, 23));
    let wrap = [Hex::new(i32::MAX, 0), Hex::new(1, 0), Hex::new(0, 0), Hex::new(0, 0)];
    assert_eq!(Hex::simd_sum4(wrap), Hex::new(i32::MIN, 0));
}

#[test]
fn simd_min_max() {
    let vals = [Hex::new(1, 2), Hex::new(3, -4), Hex::new(5, 6), Hex::new(-7, 8)];
    assert_eq!(Hex::simd_min4(vals), Hex::new(-7, -4));
    assert_eq!(Hex::simd_max4(vals), Hex::new(5, 8));
    let vals8 = [
        Hex::new(1, 2),
        Hex::new(3, -4),
        Hex::new(5, 6),
        Hex::new(-7, 8),
        Hex::new(10, 0),
        Hex::new(0, 10),
        Hex::new(-1, -11),
        Hex::new(2, 2),
    ];
    assert_eq!(Hex::simd_min8(vals8), Hex::new(-7, -11));
    assert_eq!(Hex::simd_max8(vals8), Hex::new(10, 10));
}
