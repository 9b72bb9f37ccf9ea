use hexx::{DiagonalDirection, Direction, Hex, HexIterExt};

#[test]
fn hex_range_count() {
    assert_eq!(Hex::range_count(0), 1);
    assert_eq!(Hex::range_count(1), 7);
    assert_eq!(Hex::range_count(10), 331);
    assert_eq!(Hex::range_count(15), 721);
}

#[test]
fn tests_range_count() {
    assert_eq!(Hex::range_count(0), 1);
    assert_eq!(Hex::range_count(1), 7);
    assert_eq!(Hex::range_count(10), 331);
    assert_eq!(Hex::range_count(15), 721);
}

#[test]
fn range() {
    let point = Hex::new(13, -54);
    let mut range = point.range(16).into_iter();
    assert_eq!(range.len(), Hex::range_count(16) as usize);
    assert_eq!(range.size_hint(), (range.len(), Some(range.len())));
    println!("{:#?}", range.size_hint());
    range.next();
    println!("{:#?}", range.size_hint());
    assert_eq!(range.len(), Hex::range_count(16) as usize - 1);
    assert_eq!(range.size_hint(), (range.len(), Some(range.len())));
    range.next();
    assert_eq!(range.len(), Hex::range_count(16) as usize - 2);
    assert_eq!(range.size_hint(), (range.len(), Some(range.len())));
}

fn check_ring() {
    let point = Hex::ZERO();
    assert_eq!(point.ring(0), vec![point]);
    let expected = point.all_neighbors().to_vec();
    assert_eq!(point.ring(1), expected);

    let radius = 5;
    let mut range: Vec<_> = point.range(radius);
    let removed: Vec<_> = point.range(radius - 1);
    range.retain(|h| !removed.contains(h));
    let ring = point.ring(5);
    assert_eq!(ring.len(), range.len());
    for h in &ring {
        assert!(range.contains(h));
    }
}

#[test]
fn hex_ring() {
    check_ring();
}

#[test]
fn tests_ring() {
    check_ring();
}

#[test]
fn cached_rings() {
    let point = Hex::ZERO();
    let cache = point.cached_rings(10);
    assert_eq!(cache.len(), 10);
    for (r, ring) in cache.into_iter().enumerate() {
        let expected: Vec<_> = point.ring(r as u32);
        assert_eq!(ring, expected);
    }
}

fn check_ring_offset() {
    let zero = Hex::ZERO();
    let target = Hex::new(14, 7);
    let expected: Vec<_> = zero.ring(10).into_iter().map(|h| h + target).collect();
    assert_eq!(target.ring(10), expected);
}

#[test]
fn hex_ring_offset() {
    check_ring_offset();
}

#[test]
fn tests_ring_offset() {
    check_ring_offset();
}

fn check_custom_ring() {
    let point = Hex::ZERO();
    assert_eq!(point.custom_ring(0, Direction::TopLeft, true), vec![point]);

    // clockwise
    let mut expected: Vec<_> = point.ring(5);
    expected.reverse();
    expected.rotate_right(1);
    assert_eq!(point.custom_ring(5, Direction::TopRight, true), expected);
    // offsetted
    let expected: Vec<_> = point.ring(5);
    let ring = point.custom_ring(5, Direction::BottomLeft, false);
    assert_eq!(expected.len(), ring.len());
    for h in &ring {
        assert!(expected.contains(h));
    }
}

#[test]
fn hex_custom_ring() {
    check_custom_ring();
}

#[test]
fn tests_custom_ring() {
    check_custom_ring();
}

#[test]
fn ring_edge() {
    let point = Hex::new(-189, 35);
    let edge = point.ring_edge(48, DiagonalDirection::TopRight);
    assert_eq!(edge.len(), edge.iter().count());
    // empty
    let edge = point.ring_edge(0, DiagonalDirection::TopRight);
    let len = edge.len();
    assert_eq!(edge.len(), len);
    assert_eq!(edge, vec![point]);
    // len 1
    let edge = point.ring_edge(1, DiagonalDirection::TopRight);
    let len = edge.len();
    assert_eq!(edge.len(), len);
    assert_eq!(edge.len(), 2);
}

#[test]
fn wedge() {
    let point = Hex::new(98, -123);
    for dir in DiagonalDirection::ALL_DIRECTIONS {
        for range in 0..=30u32 {
            let ranges: Vec<u32> = (0..=range).collect();
            let wedge: Vec<_> = point.wedge(&ranges, dir);
            assert_eq!(wedge.len() as u32, range * (range + 3) / 2 + 1);
            assert_eq!(wedge.len() as u32, Hex::wedge_count(range));
            let full_wedge = point.full_wedge(range, dir);
            assert_eq!(full_wedge.len(), wedge.len());
        }
    }
}

fn check_spiral_range() {
    let expected: Vec<_> = Hex::ZERO().range(10);
    let spiral = Hex::ZERO().spiral_range(10);
    assert_eq!(spiral.len(), expected.len());
    for hex in &expected {
        assert!(spiral.contains(hex));
    }
}

#[test]
fn hex_spiral_range() {
    check_spiral_range();
}

#[test]
fn tests_spiral_range() {
    check_spiral_range();
}

#[test]
fn hex_avg_center() {
    let points = [
        Hex::ONE(),
        Hex::new(5, -12),
        Hex::new(15, 2),
        Hex::new(-5, 24),
        Hex::new(-1, 17),
    ];
    let sum = points.iter().fold(Hex::ZERO(), |acc, h| acc + *h);
    let mean = sum / points.len() as i32;
    let center = Hex::new(10, 12) / 2;

    assert_eq!(points.to_vec().average(), mean);
    assert_eq!(points.to_vec().center(), center);
    assert_ne!(center, mean);

    for r in 0..30 {
        assert_eq!(Hex::ZERO().range(r).average(), Hex::ZERO());
        assert_eq!(Hex::ZERO().range(r).center(), Hex::ZERO());
    }
}

#[test]
fn range_is_sorted_and_complete() {
    let center = Hex::new(3, -7);
    let range = center.range(4);
    assert_eq!(range.len(), 61);
    for w in range.windows(2) {
        assert!((w[0].x, w[0].y) < (w[1].x, w[1].y));
    }
    for h in &range {
        assert!(h.distance_to(center) <= 4);
    }
    let xrange = center.xrange(4);
    assert_eq!(xrange.len(), 60);
    assert!(!xrange.contains(&center));
}

#[test]
fn ring_distance_is_radius() {
    let center = Hex::new(-4, 9);
    for r in 0..8u32 {
        for dir in Direction::iter() {
            for cw in [false, true] {
                let ring = center.custom_ring(r, dir, cw);
                assert_eq!(ring.len(), if r == 0 { 1 } else { 6 * r as usize });
                for h in &ring {
                    assert_eq!(h.unsigned_distance_to(center), r);
                }
            }
        }
    }
}

#[test]
fn ring_edges_and_corner_wedge() {
    let center = Hex::new(2, 3);
    let edge = center.custom_ring_edge(3, DiagonalDirection::Right, false);
    assert_eq!(edge, vec![Hex::new(5, 3), Hex::new(5, 2), Hex::new(5, 1), Hex::new(5, 0)]);
    let cw = center.custom_ring_edge(3, DiagonalDirection::Right, true);
    assert_eq!(cw, vec![Hex::new(5, 0), Hex::new(5, 1), Hex::new(5, 2), Hex::new(5, 3)]);
    let corner = center.corner_wedge(&[0, 1, 2], Direction::BottomRight);
    for h in &corner {
        assert_eq!(center.main_direction_to(*h), Direction::BottomRight);
    }
    let to = center.wedge_to(Hex::new(6, 1));
    assert_eq!(to.len() as u32, Hex::wedge_count(4));
}

#[test]
fn xrange_is_range_without_center() {
    let c = Hex::new(12, 34);
    for r in 0..6 {
        let all: Vec<Hex> = c.range(r).into_iter().filter(|h| *h != c).collect();
        assert_eq!(c.xrange(r), all);
    }
    assert_eq!(c.xrange(0).len(), 0);
    assert_eq!(c.xrange(1).len(), 6);
}

#[test]
fn spiral_range_is_a_permutation_of_range() {
    let c = Hex::new(-3, 7);
    for r in 0..8 {
        let mut spiral = c.spiral_range(r);
        let range = c.range(r);
        assert_eq!(spiral.len(), range.len());
        spiral.sort_by_key(|h| (h.x, h.y));
        assert_eq!(spiral, range);
    }
}

#[test]
fn ring_edge_steps_and_reverse() {
    let c = Hex::new(5, -2);
    for dir in DiagonalDirection::iter() {
        for r in 0..6u32 {
            let ccw = c.custom_ring_edge(r, dir, false);
            let mut cw = c.custom_ring_edge(r, dir, true);
            assert_eq!(ccw.len(), r as usize + 1);
            for w in ccw.windows(2) {
                assert_eq!(w[0].unsigned_distance_to(w[1]), 1);
            }
            cw.reverse();
            assert_eq!(ccw, cw);
        }
    }
    assert_eq!(c.custom_ring_edge(0, DiagonalDirection::Right, false), vec![c]);
}

#[test]
fn full_wedge_count_and_no_duplicates() {
    let p = Hex::new(98, -123);
    for dir in DiagonalDirection::iter() {
        for range in 0..=12u32 {
            let radii: Vec<u32> = (0..=range).collect();
            let v = p.wedge(&radii, dir);
            assert_eq!(v.len() as u32, range * (range + 3) / 2 + 1);
            assert_eq!(v.len() as u32, Hex::wedge_count(range));
            assert_eq!(p.full_wedge(range, dir), v);
            for (i, a) in v.iter().enumerate() {
                assert!(p.unsigned_distance_to(*a) <= range);
                for b in &v[i + 1..] {
                    assert_ne!(a, b);
                }
            }
        }
    }
}

#[test]
fn ring_offset_and_clockwise() {
    let target = Hex::new(14, 7);
    for r in 0..11u32 {
        let moved: Vec<Hex> = Hex::ZERO().ring(r).into_iter().map(|h| h + target).collect();
        assert_eq!(target.ring(r), moved);
    }
    for r in 1..8u32 {
        let mut e = Hex::ZERO().ring(r);
        e.reverse();
        e.rotate_right(1);
        assert_eq!(Hex::ZERO().custom_ring(r, Direction::TopRight, true), e);
    }
    let cache = Hex::ZERO().cached_rings(10);
    for r in 0..10u32 {
        assert_eq!(cache[r as usize], Hex::ZERO().ring(r));
    }
}
