use hexx::{DiagonalDirection, Direction, DirectionWay, EdgeDirection, GridVertex, Hex, VertexDirection};

#[test]
fn rotate_ccw_cw() {
    for direction in EdgeDirection::ALL_DIRECTIONS() {
        assert_eq!(direction, direction.rotate_cw(6));
        assert_eq!(direction, direction.rotate_cw(12));
        assert_eq!(direction, direction.rotate_cw(1).rotate_ccw(1));
        assert_eq!(direction, direction.rotate_ccw(1).rotate_cw(1));
        assert_eq!(direction.counter_clockwise(), direction.rotate_ccw(1));
        assert_eq!(
            direction.counter_clockwise().counter_clockwise(),
            direction.rotate_ccw(2)
        );
        assert_eq!(direction.clockwise(), direction.rotate_cw(1));
        assert_eq!(direction.clockwise().clockwise(), direction.rotate_cw(2));
    }
}

#[test]
fn rotations_reverse_each_other() {
    for direction in EdgeDirection::ALL_DIRECTIONS() {
        assert_eq!(direction, direction.counter_clockwise().clockwise());
        assert_eq!(direction, direction.clockwise().counter_clockwise());
    }
}

#[test]
fn six_rotations_comes_home() {
    for direction in EdgeDirection::ALL_DIRECTIONS() {
        let mut clockwise_dir = direction;
        let mut counter_clockwise_dir = direction;

        for _ in 0..6 {
            clockwise_dir = clockwise_dir.counter_clockwise();
            counter_clockwise_dir = counter_clockwise_dir.clockwise();
        }

        assert_eq!(direction, clockwise_dir);
        assert_eq!(direction, counter_clockwise_dir);
    }
}

#[test]
fn diagonal_neighbors() {
    for dir in EdgeDirection::ALL_DIRECTIONS() {
        assert_eq!(dir.diagonal_ccw().direction_cw(), dir);
        assert_eq!(dir.diagonal_cw().direction_ccw(), dir);
    }
}

#[test]
fn dir_neighbors() {
    for dir in VertexDirection::ALL_DIRECTIONS() {
        assert_eq!(dir.direction_ccw().diagonal_cw(), dir);
        assert_eq!(dir.direction_cw().diagonal_ccw(), dir);
    }
}

#[test]
fn direction_rotations() {
    assert_eq!(Direction::TopRight.clockwise(), Direction::BottomRight);
    assert_eq!(Direction::TopRight.counter_clockwise(), Direction::Top);
    assert_eq!(-Direction::Top, Direction::Bottom);
    assert_eq!(DiagonalDirection::Right.counter_clockwise(), DiagonalDirection::TopRight);
    assert_eq!(Direction::Top.rotate_cw(7), Direction::TopRight);
    assert_eq!(Direction::from_index(8), Direction::TopLeft);
    for d in Direction::iter() {
        assert_eq!(d.rotate_cw(6), d);
        assert_eq!(d.rotate_ccw(3), -d);
    }
}

#[test]
fn vertices() {
    let v = GridVertex { origin: Hex::ZERO(), direction: VertexDirection::ALL_DIRECTIONS()[0] };
    let [a, b, c] = v.coordinates();
    assert_eq!(a, Hex::ZERO());
    assert_eq!(b.distance_to(a), 1);
    assert_eq!(c.distance_to(a), 1);
    for other in [
        GridVertex { origin: b, direction: VertexDirection::ALL_DIRECTIONS()[2] },
        GridVertex { origin: c, direction: VertexDirection::ALL_DIRECTIONS()[4] },
    ] {
        assert!(v.equivalent(&other));
    }
    assert!(!v.equivalent(&v.clockwise()));
    assert_eq!(Hex::ZERO().all_vertices()[3].direction, VertexDirection::ALL_DIRECTIONS()[3]);
}

#[test]
fn edge_direction_hexes() {
    assert_eq!(EdgeDirection::X().into_hex(), Hex::new(1, 0));
    assert_eq!(EdgeDirection::Y().into_hex(), Hex::new(0, 1));
    assert_eq!(EdgeDirection::NEG_X_Y().into_hex(), Hex::new(-1, 1));
    assert_eq!(EdgeDirection::NEG_X().into_hex(), Hex::new(-1, 0));
    assert_eq!(EdgeDirection::NEG_Y().into_hex(), Hex::new(0, -1));
    assert_eq!(EdgeDirection::FLAT_TOP_RIGHT().into_hex(), Hex::new(1, -1));
    assert_eq!(EdgeDirection::FLAT_TOP().clockwise(), EdgeDirection::FLAT_TOP_RIGHT());
    assert_eq!(Hex::new(3, 4) + EdgeDirection::X(), Hex::new(4, 4));
}

#[test]
fn vertex_direction_hexes() {
    assert_eq!(VertexDirection::X().into_hex(), Hex::new(2, -1));
    assert_eq!(VertexDirection::NEG_Z().into_hex(), Hex::new(1, 1));
    assert_eq!(VertexDirection::Y().into_hex(), Hex::new(-1, 2));
    assert_eq!(VertexDirection::NEG_X().into_hex(), Hex::new(-2, 1));
    assert_eq!(VertexDirection::Z().into_hex(), Hex::new(-1, -1));
    assert_eq!(VertexDirection::NEG_Y().into_hex(), Hex::new(1, -2));
    for v in VertexDirection::ALL_DIRECTIONS() {
        let [a, b] = v.edge_directions();
        assert_eq!(a.into_hex() + b.into_hex(), v.into_hex());
    }
}

#[test]
fn way_contains() {
    let single = DirectionWay::Single(Direction::Top);
    assert!(single.contains(&Direction::Top));
    assert!(!single.contains(&Direction::Bottom));
    let tie = DirectionWay::Tie([Direction::Top, Direction::TopLeft]);
    assert!(tie.contains(&Direction::Top));
    assert!(tie.contains(&Direction::TopLeft));
    assert!(!tie.contains(&Direction::BottomRight));
    assert!(tie.contains(&tie.unwrap()));
    let way = Hex::ZERO().way_to(Hex::new(3, -1));
    assert!(way.contains(&way.unwrap()));
    let edge = DirectionWay::Single(EdgeDirection::X());
    assert!(edge.contains(&EdgeDirection::X()));
    assert!(!edge.contains(&EdgeDirection::Y()));
}

#[test]
fn vertex_equivalence_classes() {
    let origins = [Hex::new(0, 0), Hex::new(3, -2), Hex::new(-1, 4)];
    let mut all = Vec::new();
    for o in origins {
        for v in o.all_vertices() {
            all.push(v);
        }
    }
    for a in &all {
        assert!(a.equivalent(a));
        let [_, b, c] = a.coordinates();
        let names: Vec<GridVertex> = b
            .all_vertices()
            .into_iter()
            .chain(c.all_vertices())
            .chain(a.origin.all_vertices())
            .filter(|v| a.equivalent(v))
            .collect();
        assert_eq!(names.len(), 3);
        for x in &names {
            assert!(x.equivalent(a));
            for y in &names {
                assert!(x.equivalent(y));
                if x != y {
                    assert_eq!(x.origin.unsigned_distance_to(y.origin), 1);
                }
            }
        }
    }
}
