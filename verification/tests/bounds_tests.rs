use hexx::{DiagonalDirection, Hex, HexBounds, HexMap};

#[test]
fn in_bounds_work() {
    let bounds = HexBounds::new(Hex::new(-4, 23), 34);
    for h in bounds.all_coords() {
        assert!(bounds.is_in_bounds(h));
    }
}

#[test]
fn intersecting_with() {
    let ba = HexBounds::new(Hex::ZERO(), 3);
    let bb = HexBounds::new(Hex::new(4, 0), 3);
    let intersection = ba.intersecting_with(bb);
    assert_eq!(intersection.len(), 9);
}

#[test]
fn bounds_wrapping_works() {
    let map = HexBounds::from_radius(3);

    assert_eq!(map.wrap(Hex::new(0, 4)), Hex::new(-3, 0));
    assert_eq!(map.wrap(Hex::new(4, 0)), Hex::new(-3, 3));
    assert_eq!(map.wrap(Hex::new(4, -4)), Hex::new(0, 3));
}

#[test]
fn bounds_wrapping_outside_works() {
    let map = HexBounds::from_radius(2);

    assert_eq!(map.wrap(Hex::new(3, 0)), Hex::new(-2, 2));
    assert_eq!(map.wrap(Hex::new(5, 0)), Hex::new(0, 2));
    assert_eq!(map.wrap(Hex::new(6, 0)), Hex::new(-1, -1));

    assert_eq!(map.wrap(Hex::new(2, 3)), Hex::new(0, 0)); // mirror
    assert_eq!(map.wrap(Hex::new(4, 6)), Hex::new(0, 0));
}

#[test]
fn positive_radius() {
    for radius in 0..100_u32 {
        let bounds = HexBounds::positive_radius(radius);
        let coords = bounds.all_coords();
        let fails: Vec<_> = coords.into_iter().filter(|c| c.x < 0 || c.y < 0).collect();
        println!("{fails:#?}");
        assert!(fails.is_empty());
    }
}

#[test]
fn bounds_hexagon() {
    for radius in 0..8 {
        let bounds = HexBounds::new(Hex::ZERO(), radius);
        let coords = bounds.all_coords();
        let reconstructed = HexBounds::from_hexes(&coords);
        assert_eq!(bounds, reconstructed);
        let corners = bounds.corners();
        let reconstructed = HexBounds::from_hexes(&corners);
        assert_eq!(bounds, reconstructed);
    }

    for radius in 0..8 {
        let bounds = HexBounds::new(Hex::new(15, -19), radius);
        let coords = bounds.all_coords();
        let reconstructed = HexBounds::from_hexes(&coords);
        assert_eq!(bounds, reconstructed);
        let corners = bounds.corners();
        let reconstructed = HexBounds::from_hexes(&corners);
        assert_eq!(bounds, reconstructed);
    }
}

#[test]
fn range_works() {
    let coords: Vec<_> = Hex::ZERO().range(10);
    let bounds = HexBounds::from_hexes(&coords);
    assert_eq!(bounds.center, Hex::ZERO());
    assert_eq!(bounds.radius, 10);
    for h in coords {
        assert!(bounds.is_in_bounds(h));
    }
}

#[test]
fn bounds_rhombus() {
    for size in 1..10 {
        for rotation in 0..3 {
            let coords = (0..size * size)
                .map(|i| Hex::new(i / size, i % size).rotate_cw(rotation))
                .collect::<Vec<_>>();
            let reconstructed = HexBounds::from_hexes(&coords);
            for h in coords {
                assert!(reconstructed.is_in_bounds(h));
            }
            let radius = size as u32 - 1;
            assert_eq!(reconstructed.radius, radius);
        }
    }
}

#[test]
fn bounds_edge_cases() {
    let mut coords = vec![];
    let reconstructed = HexBounds::from_hexes(&coords);
    // Doesn't matter where it's placed.
    assert_eq!(reconstructed.radius, 0);

    coords.push(Hex::new(0, 0));
    let reconstructed = HexBounds::from_hexes(&coords);
    assert_eq!(reconstructed, HexBounds::from_radius(0));
}

#[test]
fn bounds_wedge() {
    for size in 1..10 {
        let coords = Hex::new(0, 0).full_wedge(size, DiagonalDirection::ALL_DIRECTIONS[1]);
        let reconstructed = HexBounds::from_hexes(&coords);
        for h in coords {
            assert!(reconstructed.is_in_bounds(h));
        }
        assert_eq!(reconstructed.radius, 2 * (size + 1) / 3);

        let coords = Hex::new(0, 0).full_wedge(size, DiagonalDirection::ALL_DIRECTIONS[2]);
        let reconstructed = HexBounds::from_hexes(&coords);
        for h in coords {
            assert!(reconstructed.is_in_bounds(h));
        }
        assert_eq!(reconstructed.radius, 2 * (size + 1) / 3);
    }
}

#[test]
fn hex_map_wrapping_works() {
    let map = HexMap::new(3);

    assert_eq!(map.wrapped_hex(Hex::new(0, 4)), Hex::new(-3, 0));
    assert_eq!(map.wrapped_hex(Hex::new(4, 0)), Hex::new(-3, 3));
    assert_eq!(map.wrapped_hex(Hex::new(4, -4)), Hex::new(0, 3));
}

#[test]
fn hex_map_wrapping_outside_works() {
    let map = HexMap::new(2);

    assert_eq!(map.wrapped_hex(Hex::new(3, 0)), Hex::new(-2, 2));
    assert_eq!(map.wrapped_hex(Hex::new(5, 0)), Hex::new(0, 2));
    assert_eq!(map.wrapped_hex(Hex::new(6, 0)), Hex::new(-1, -1));

    assert_eq!(map.wrapped_hex(Hex::new(2, 3)), Hex::new(0, 0)); // mirror
    assert_eq!(map.wrapped_hex(Hex::new(4, 6)), Hex::new(0, 0));
}

#[test]
fn wrapping_agrees_between_map_and_bounds() {
    for radius in 0..6u32 {
        let map = HexMap::new(radius);
        let bounds = HexBounds::from_radius(radius);
        for h in Hex::ZERO().range(3 * radius + 4) {
            let a = map.wrapped_hex(h);
            let b = bounds.wrap(h);
            assert_eq!(a, b);
            assert!(bounds.is_in_bounds(b));
        }
    }
}

#[test]
fn bounds_are_minimal() {
    let coords = vec![Hex::new(0, 0), Hex::new(4, 0)];
    let b = HexBounds::from_hexes(&coords);
    assert_eq!(b.radius, 2);
    assert_eq!(b.center, Hex::new(2, 0));
    let coords = vec![Hex::new(1, -1), Hex::new(0, 1), Hex::new(-1, 0)];
    let b = HexBounds::from_hexes(&coords);
    assert_eq!(b.radius, 1);
}

#[test]
fn resolution_round_trip() {
    for h in Hex::new(3, -2).range(6) {
        for r in 0..5u32 {
            let center = h.to_higher_res(r);
            assert_eq!(center.to_lower_res(r), h);
            assert_eq!(center.to_local(r), Hex::ZERO());
        }
    }
    let coord = Hex::new(23, 45);
    let parent = coord.to_lower_res(5);
    let center = parent.to_higher_res(5);
    assert!(coord.distance_to(center) <= 5);
}

#[test]
fn wrap_with_mirrors_in_any_order() {
    let radius = 3;
    let mirrors = Hex::wraparound_mirrors(radius);
    let mut reversed = mirrors;
    reversed.reverse();
    let rotated = [mirrors[2], mirrors[5], mirrors[0], mirrors[4], mirrors[1], mirrors[3]];
    for x in -20..=20 {
        for y in -20..=20 {
            let h = Hex::new(x, y);
            let w = h.wrap_with(radius, &mirrors);
            assert!(w.ulength() <= radius);
            assert_eq!(h.wrap_with(radius, &reversed), w);
            assert_eq!(h.wrap_with(radius, &rotated), w);
            assert_eq!(w, h.wrap_in_range(radius));
            if h.ulength() <= radius {
                assert_eq!(w, h);
            }
        }
    }
}

#[test]
fn large_chunks_wrap() {
    assert_eq!(Hex::ZERO().wrap_in_range(30000), Hex::ZERO());
    assert_eq!(Hex::new(5, -7).wrap_in_range(30000), Hex::new(5, -7));
    let bounds = HexBounds::new(Hex::new(3, 4), 30000);
    assert_eq!(bounds.wrap(Hex::new(3, 4)), Hex::new(3, 4));
}

#[test]
fn bounds_of_far_coordinates() {
    let far = Hex::new(1 << 30, 0);
    let bounds = HexBounds::from_hexes(&[far]);
    assert_eq!(bounds.center, far);
    assert_eq!(bounds.radius, 0);
    let pair = HexBounds::from_hexes(&[Hex::new(1 << 30, 0), Hex::new((1 << 30) + 4, 0)]);
    assert_eq!(pair.radius, 2);
    assert_eq!(pair.center, Hex::new((1 << 30) + 2, 0));
}

#[test]
fn wrapped_neighbors_follow_direction_order() {
    let map = HexMap::new(3).with_center(Hex::new(2, -1));
    for hex in [Hex::new(2, -1), Hex::new(5, -1), Hex::new(-1, 2), Hex::new(4, 1)] {
        let wrapped = map.wrapped_neighbors(hex);
        let neighbors = hex.all_neighbors();
        for k in 0..6 {
            assert_eq!(wrapped[k], map.wrapped_hex(neighbors[k]));
            assert!(wrapped[k].unsigned_distance_to(map.center()) <= 3);
        }
    }
    let wrapped = HexMap::new(1).wrapped_neighbors(Hex::new(1, 0));
    assert_eq!(wrapped[5], Hex::new(-1, 1));
    assert_eq!(wrapped[4], Hex::new(1, 1).wrap_in_range(1));
}

#[test]
fn wrapping_is_idempotent() {
    for range in 0..5u32 {
        for x in -15..=15 {
            for y in -15..=15 {
                let h = Hex::new(x, y);
                let w = h.wrap_in_range(range);
                assert!(w.ulength() <= range);
                assert_eq!(w.wrap_in_range(range), w);
                if h.ulength() <= range {
                    assert_eq!(w, h);
                }
                let b = HexBounds::new(Hex::new(4, -9), range);
                let bw = b.wrap(h);
                assert!(b.is_in_bounds(bw));
                assert_eq!(b.wrap(bw), bw);
                if b.is_in_bounds(h) {
                    assert_eq!(bw, h);
                }
            }
        }
    }
}
