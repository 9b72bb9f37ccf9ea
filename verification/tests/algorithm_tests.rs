use hexx::{
    a_star, directional_targets, field_of_movement, field_of_movement_with_costs, fov_along, AStar,
    AStarStep, Direction, EdgeDirection, Hex,
};

/// The search driven one step at a time through the step API.
fn a_star_search(start: Hex, end: Hex, cost: impl Fn(Hex) -> Option<u32>) -> Option<Vec<Hex>> {
    let mut search = AStar::new(start, end);
    loop {
        match search.step(&cost) {
            AStarStep::Found(path) => return Some(path),
            AStarStep::Exhausted => return None,
            AStarStep::Searching => {}
        }
    }
}

#[test]
fn a_star_finds_a_connected_path() {
    let start = Hex::new(-2, 1);
    let end = Hex::new(3, -1);
    let cost = |h: Hex| {
        if h.unsigned_distance_to(Hex::ZERO()) > 6 || h == Hex::new(0, 0) {
            None
        } else {
            Some(1)
        }
    };
    let path = a_star_search(start, end, cost).unwrap();
    assert_eq!(path.first(), Some(&start));
    assert_eq!(path.last(), Some(&end));
    for w in path.windows(2) {
        assert_eq!(w[0].unsigned_distance_to(w[1]), 1);
        assert_ne!(w[1], Hex::new(0, 0));
    }
}

#[test]
fn a_star_unreachable() {
    let start = Hex::ZERO();
    let end = Hex::new(5, 0);
    let cost = |h: Hex| if h.unsigned_distance_to(Hex::ZERO()) >= 2 { None } else { Some(1) };
    assert_eq!(a_star_search(start, end, cost), None);
    assert_eq!(a_star_search(start, start, cost), Some(vec![start]));
}

#[test]
fn field_of_movement_plain() {
    let field = field_of_movement(Hex::ZERO(), 3, |_| Some(0));
    // every cell within 3 moves is reached when entering costs one move
    assert_eq!(field.len(), 36);
    for h in &field {
        assert!(h.unsigned_distance_to(Hex::ZERO()) <= 3);
    }
    let field = field_of_movement(Hex::ZERO(), 3, |_| Some(1));
    assert_eq!(field.len(), 6);
    let field = field_of_movement(Hex::ZERO(), 4, |h| if h.x == 1 { None } else { Some(0) });
    assert!(!field.contains(&Hex::new(1, 0)));
}

#[test]
fn field_of_movement_from_costs() {
    let cells = [Hex::new(1, 0), Hex::new(2, 0), Hex::new(5, 5)];
    let costs = [Some(0), Some(0), Some(0)];
    let field = field_of_movement_with_costs(Hex::ZERO(), 2, &cells, &costs);
    assert_eq!(field, vec![Hex::new(1, 0), Hex::new(2, 0)]);
    let costs = [None, Some(0), Some(0)];
    assert!(field_of_movement_with_costs(Hex::ZERO(), 2, &cells, &costs).is_empty());
}

#[test]
fn fov_stops_at_blocking() {
    let lines = vec![
        vec![Hex::new(0, 0), Hex::new(1, 0), Hex::new(2, 0), Hex::new(3, 0)],
        vec![Hex::new(0, 0), Hex::new(0, 1), Hex::new(0, 2)],
    ];
    let seen = fov_along(&lines, |h| h == Hex::new(2, 0));
    assert_eq!(seen, vec![Hex::new(0, 0), Hex::new(1, 0), Hex::new(0, 1), Hex::new(0, 2)]);
}

#[test]
fn directional_targets_are_on_the_ring() {
    let center = Hex::new(1, 1);
    let mut total = 0;
    for dir in EdgeDirection::ALL_DIRECTIONS() {
        let targets = directional_targets(center, 4, dir);
        assert!(!targets.is_empty());
        for h in &targets {
            assert_eq!(h.unsigned_distance_to(center), 4);
        }
        total += targets.len();
    }
    assert!(total >= 24);
}

#[test]
fn line_directions_follow_steps() {
    let line = [Hex::new(0, 0), Hex::new(0, 1), Hex::new(1, 1), Hex::new(3, 1), Hex::new(3, 2)];
    assert_eq!(
        Hex::line_directions(&line),
        vec![Direction::Bottom, Direction::BottomRight, Direction::Bottom]
    );
}

#[test]
fn field_of_movement_has_no_duplicates() {
    let field = field_of_movement(Hex::new(4, -4), 5, |h| if h.y == -3 { None } else { Some(0) });
    for (i, a) in field.iter().enumerate() {
        for b in &field[i + 1..] {
            assert_ne!(a, b);
        }
    }
}

#[test]
fn a_star_whole_search() {
    let start = Hex::new(0, 0);
    let end = Hex::new(10, 0);
    let forbidden = [Hex::new(2, 0), Hex::new(3, 0), Hex::new(1, 1)];
    let cost = |h: Hex| if forbidden.contains(&h) { None } else { Some(0) };
    let path = a_star(start, end, cost).unwrap();
    assert_eq!(path.first(), Some(&start));
    assert_eq!(path.last(), Some(&end));
    for w in path.windows(2) {
        assert_eq!(w[0].unsigned_distance_to(w[1]), 1);
    }
    for h in &path[1..] {
        assert!(!forbidden.contains(h));
    }
    assert_eq!(a_star(start, end, cost), a_star_search(start, end, cost));
    // a start on the border of the i32 range is its own path
    let corner = Hex::new(i32::MAX, i32::MIN);
    assert_eq!(a_star(corner, corner, cost), Some(vec![corner]));
    // walled in: nothing around the start can be entered
    let walled = |h: Hex| if h.unsigned_distance_to(start) == 1 { None } else { Some(1) };
    assert_eq!(a_star(start, end, walled), None);
}
