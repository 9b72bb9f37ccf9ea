use hexx::{DoubledHexMode, Hex, OffsetHexMode, PackedHex};

#[test]
fn doubled_coordinates() {
    for hex in Hex::ZERO().range(20) {
        for mode in [DoubledHexMode::DoubledWidth, DoubledHexMode::DoubledHeight] {
            let doubled = hex.to_doubled_coordinates(mode);
            let converted = Hex::from_doubled_coordinates(doubled, mode);
            assert_eq!(converted, hex);
        }
    }
}

#[test]
fn offset_coordinates() {
    for hex in Hex::ZERO().range(20) {
        for mode in [
            OffsetHexMode::OddRows,
            OffsetHexMode::OddColumns,
            OffsetHexMode::EvenColumns,
            OffsetHexMode::EvenRows,
        ] {
            let offset = hex.to_offset_coordinates(mode);
            let converted = Hex::from_offset_coordinates(offset, mode);
            assert_eq!(converted, hex);
        }
    }
}

#[test]
fn hexmod_coordinates() {
    let range = 20;
    for hex in Hex::ZERO().range(range) {
        let hexmod = hex.to_hexmod_coordinates(range);
        let converted = Hex::from_hexmod_coordinates(hexmod, range);
        assert_eq!(converted, hex);
    }
}

#[test]
fn conversion_values() {
    assert_eq!(Hex::new(3, -1).to_doubled_coordinates(DoubledHexMode::DoubledWidth), [5, -1]);
    assert_eq!(Hex::new(3, -1).to_doubled_coordinates(DoubledHexMode::DoubledHeight), [3, 1]);
    assert_eq!(Hex::new(3, -1).to_offset_coordinates(OffsetHexMode::OddColumns), [3, 0]);
    assert_eq!(Hex::new(3, -1).to_offset_coordinates(OffsetHexMode::EvenColumns), [3, 1]);
    assert_eq!(Hex::ZERO().to_hexmod_coordinates(2), 0);
    assert_eq!(Hex::new(1, 0).to_hexmod_coordinates(2), 8);
}

#[test]
fn works() {
    for x in -50..=50 {
        for y in -50..=50 {
            let hex = Hex::new(x, y);
            let packed = hex.packed();
            assert_eq!(packed.unpacked(), hex);
        }
    }
}

#[test]
fn works_with_big_values() {
    let min = i32::MIN;
    let max = i32::MAX;

    let hexes = [
        Hex::splat(min),
        Hex::splat(max),
        Hex::new(min, max),
        Hex::new(max, min),
    ];
    for hex in hexes {
        let packed = hex.packed();
        assert_eq!(packed.unpacked(), hex);
    }
}

#[test]
fn setter_works() {
    let mut packed = PackedHex::new(-1234, 2345);
    assert_eq!(packed.x(), -1234);
    assert_eq!(packed.y(), 2345);
    packed.set_x(654_321);
    assert_eq!(packed.x(), 654_321);
    assert_eq!(packed.y(), 2345);
    packed.set_y(-998_877);
    assert_eq!(packed.x(), 654_321);
    assert_eq!(packed.y(), -998_877);
}

#[test]
fn u64_round_trip() {
    let h = Hex::new(0xAA, -0xBB);
    let v = h.as_u64();
    assert_eq!(v, 0x0000_00AA_FFFF_FF45);
    assert_eq!(Hex::from_u64(v), h);
    assert_eq!(PackedHex::from(h), h.packed());
    assert_eq!(Hex::from(h.packed()), h);
}

#[test]
fn doubled_coordinates_far_from_origin() {
    let h = Hex::new(-(1 << 30), 0);
    let doubled = h.to_doubled_coordinates(DoubledHexMode::DoubledHeight);
    assert_eq!(Hex::from_doubled_coordinates(doubled, DoubledHexMode::DoubledHeight), h);
    assert_eq!(Hex::from_doubled_coordinates([-(1 << 30), 0], DoubledHexMode::DoubledWidth), Hex::new(-(1 << 29), 0));
}

#[test]
fn hexmod_numbers_the_range() {
    for range in 0..6u32 {
        let count = 3 * range * (range + 1) + 1;
        let mut seen: Vec<u32> = Hex::ZERO().range(range).into_iter().map(|h| h.to_hexmod_coordinates(range)).collect();
        for m in &seen {
            assert!(*m < count);
        }
        seen.sort();
        assert_eq!(seen, (0..count).collect::<Vec<u32>>());
        let h = Hex::new(2, -1);
        let k = Hex::new(-3, 4);
        assert_eq!((h + k.to_higher_res(range)).to_hexmod_coordinates(range), h.to_hexmod_coordinates(range));
    }
}
