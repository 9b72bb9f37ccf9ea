use hexx::{Direction, Hex};

#[test]
fn hex_hex_addition() {
    assert_eq!(Hex::ZERO() + Hex::ZERO(), Hex::ZERO());
    assert_eq!(Hex::ZERO() + Hex::ONE(), Hex::ONE());
    assert_eq!(Hex::ONE() + Hex::ONE(), Hex::new(2, 2));
    assert_eq!(Hex::ONE() + Hex::new(3, 4), Hex::new(4, 5));
}

#[test]
fn tests_hex_addition() {
    assert_eq!(Hex::ZERO() + Hex::ZERO(), Hex::ZERO());
    assert_eq!(Hex::ZERO() + Hex::ONE(), Hex::ONE());
    assert_eq!(Hex::ONE() + Hex::ONE(), Hex::new(2, 2));
    assert_eq!(Hex::ONE() + Hex::new(3, 4), Hex::new(4, 5));
}

#[test]
fn hex_int_addition() {
    assert_eq!(Hex::ZERO() + 1, Hex::ONE());
    assert_eq!(Hex::ONE() + 1, Hex::new(2, 2));
}

#[test]
fn tests_int_addition() {
    assert_eq!(Hex::ZERO() + 1, Hex::ONE());
    assert_eq!(Hex::ONE() + 1, Hex::new(2, 2));
}

#[test]
fn hex_hex_subtraction() {
    assert_eq!(Hex::ZERO() - Hex::ZERO(), Hex::ZERO());
    assert_eq!(Hex::ONE() - Hex::ZERO(), Hex::ONE());
    assert_eq!(Hex::ONE() - Hex::ONE(), Hex::ZERO());
    assert_eq!(Hex::ONE() - Hex::new(2, 2), Hex::new(-1, -1));
    assert_eq!(Hex::ONE() - Hex::new(4, 5), Hex::new(-3, -4));
}

#[test]
fn tests_hex_subtraction() {
    assert_eq!(Hex::ZERO() - Hex::ZERO(), Hex::ZERO());
    assert_eq!(Hex::ONE() - Hex::ZERO(), Hex::ONE());
    assert_eq!(Hex::ONE() - Hex::ONE(), Hex::ZERO());
    assert_eq!(Hex::ONE() - Hex::new(2, 2), Hex::new(-1, -1));
    assert_eq!(Hex::ONE() - Hex::new(4, 5), Hex::new(-3, -4));
}

#[test]
fn hex_int_subtraction() {
    assert_eq!(Hex::ONE() - 1, Hex::ZERO());
    assert_eq!(Hex::ONE() - 2, Hex::splat(-1));
    assert_eq!(Hex::ZERO() - 10, Hex::splat(-10));
}

#[test]
fn tests_int_subtraction() {
    assert_eq!(Hex::ONE() - 1, Hex::ZERO());
    assert_eq!(Hex::ONE() - 2, Hex::splat(-1));
    assert_eq!(Hex::ZERO() - 10, Hex::splat(-10));
}

#[test]
fn hex_hex_multiplication() {
    assert_eq!(Hex::ONE() * Hex::ZERO(), Hex::ZERO());
    assert_eq!(Hex::ONE() * Hex::ONE(), Hex::ONE());
    assert_eq!(Hex::ONE() * Hex::new(2, 2), Hex::new(2, 2));
    assert_eq!(Hex::ONE() * Hex::new(5, 6), Hex::new(5, 6));
    assert_eq!(Hex::new(2, 3) * Hex::new(5, 10), Hex::new(10, 30));
}

#[test]
fn tests_hex_multiplication() {
    assert_eq!(Hex::ONE() * Hex::ZERO(), Hex::ZERO());
    assert_eq!(Hex::ONE() * Hex::ONE(), Hex::ONE());
    assert_eq!(Hex::ONE() * Hex::new(2, 2), Hex::new(2, 2));
    assert_eq!(Hex::ONE() * Hex::new(5, 6), Hex::new(5, 6));
    assert_eq!(Hex::new(2, 3) * Hex::new(5, 10), Hex::new(10, 30));
}

#[test]
fn hex_int_multiplication() {
    assert_eq!(Hex::ONE() * 5, Hex::splat(5));
}

#[test]
fn tests_int_multiplication() {
    assert_eq!(Hex::ONE() * 5, Hex::splat(5));
}

#[test]
fn hex_hex_division() {
    assert_eq!(Hex::ONE() / Hex::ONE(), Hex::ONE());
    assert_eq!(Hex::new(2, 2) / Hex::new(2, 2), Hex::ONE());
    assert_eq!(Hex::new(10, 30) / Hex::new(2, 6), Hex::new(5, 5));
    assert_eq!(Hex::new(11, 31) / Hex::new(2, 6), Hex::new(5, 5));
}

#[test]
fn tests_hex_division() {
    assert_eq!(Hex::ONE() / Hex::ONE(), Hex::ONE());
    assert_eq!(Hex::new(2, 2) / Hex::new(2, 2), Hex::ONE());
    assert_eq!(Hex::new(10, 30) / Hex::new(2, 6), Hex::new(5, 5));
    assert_eq!(Hex::new(11, 31) / Hex::new(2, 6), Hex::new(5, 5));
}

#[test]
fn hex_int_division() {
    assert_eq!(Hex::new(2, 2) / 2, Hex::ONE());
    assert_eq!(Hex::new(10, 30) / 2, Hex::new(5, 15));
    assert_eq!(Hex::new(11, 31) / 2, Hex::new(5, 15));
}

fn check_rem(p: Hex) {
    for x2 in 1..30 {
        for y2 in 1..30 {
            let rhs = x2;
            let div = p / rhs;
            let rem = p % rhs;
            assert_eq!(div * rhs + rem, p);
            let rhs = Hex::new(x2, y2);
            let div = p / rhs;
            let rem = p % rhs;
            assert_eq!(div * rhs + rem, p);
        }
    }
}

#[test]
fn hex_hex_rem() {
    for x in 1..30 {
        for y in 1..30 {
            check_rem(Hex::new(x, y));
        }
    }
}

#[test]
fn tests_hex_rem() {
    for x in 1..30 {
        for y in 1..30 {
            check_rem(Hex::new(x, y));
        }
    }
}

fn check_neighbors() {
    assert_eq!(
        Hex::ZERO().all_neighbors(),
        [
            Hex::new(1, -1),
            Hex::new(0, -1),
            Hex::new(-1, 0),
            Hex::new(-1, 1),
            Hex::new(0, 1),
            Hex::new(1, 0),
        ]
    );
    assert_eq!(
        Hex::new(-2, 5).all_neighbors(),
        [
            Hex::new(-1, 4),
            Hex::new(-2, 4),
            Hex::new(-3, 5),
            Hex::new(-3, 6),
            Hex::new(-2, 6),
            Hex::new(-1, 5),
        ]
    );
}

#[test]
fn hex_neighbors() {
    check_neighbors();
}

#[test]
fn tests_neighbors() {
    check_neighbors();
}

fn check_diagonals() {
    assert_eq!(
        Hex::ZERO().all_diagonals(),
        [
            Hex::new(2, -1),
            Hex::new(1, -2),
            Hex::new(-1, -1),
            Hex::new(-2, 1),
            Hex::new(-1, 2),
            Hex::new(1, 1),
        ]
    );
    assert_eq!(
        Hex::new(-2, 5).all_diagonals(),
        [
            Hex::new(0, 4),
            Hex::new(-1, 3),
            Hex::new(-3, 4),
            Hex::new(-4, 6),
            Hex::new(-3, 7),
            Hex::new(-1, 6),
        ]
    );
}

#[test]
fn hex_diagonals() {
    check_diagonals();
}

#[test]
fn tests_diagonals() {
    check_diagonals();
}

fn check_distance_to() {
    assert_eq!(Hex::ZERO().distance_to(Hex::ZERO()), 0);
    assert_eq!(Hex::ZERO().distance_to(Hex::ONE()), 2);
    assert_eq!(Hex::ZERO().distance_to(Hex::new(2, 2)), 4);
    assert_eq!(Hex::ZERO().distance_to(Hex::new(-2, -2)), 4);
    assert_eq!(Hex::new(-2, -2).distance_to(Hex::new(-4, -4)), 4);
}

#[test]
fn hex_distance_to() {
    check_distance_to();
}

#[test]
fn tests_distance_to() {
    check_distance_to();
}

#[test]
fn hex_rotate_right() {
    let hex = Hex::new(5, 0);
    let new = hex.rotate_right();
    assert_eq!(new, Hex::new(0, 5));
    let new = new.rotate_right();
    assert_eq!(new, Hex::new(-5, 5));
    let new = new.rotate_right();
    assert_eq!(new, Hex::new(-5, 0));
    let new = new.rotate_right();
    assert_eq!(new, Hex::new(0, -5));
    let new = new.rotate_right();
    assert_eq!(new, Hex::new(5, -5));
    let new = new.rotate_right();
    assert_eq!(new, hex);
}

#[test]
fn hex_rotate_left() {
    let hex = Hex::new(5, 0);
    let new = hex.rotate_left();
    assert_eq!(new, Hex::new(5, -5));
    let new = new.rotate_left();
    assert_eq!(new, Hex::new(0, -5));
    let new = new.rotate_left();
    assert_eq!(new, Hex::new(-5, 0));
    let new = new.rotate_left();
    assert_eq!(new, Hex::new(-5, 5));
    let new = new.rotate_left();
    assert_eq!(new, Hex::new(0, 5));
    let new = new.rotate_left();
    assert_eq!(new, hex);
}

#[test]
fn hex_length() {
    assert_eq!(Hex::ZERO().length(), 0);
    assert_eq!(Hex::ZERO().ulength(), 0);
    assert_eq!(Hex::ONE().length(), 2);
    assert_eq!(Hex::ONE().ulength(), 2);
    assert_eq!((Hex::ONE() * 100).length(), 200);
    assert_eq!((Hex::ONE() * 100).ulength(), 200);

    assert_eq!(Hex::new(i32::MAX, 0).length(), i32::MAX);
    assert_eq!(Hex::new(i32::MAX, 0).ulength(), u32::MAX / 2);
    assert_eq!(Hex::new(i32::MIN + 1, 0).length(), i32::MAX);
    assert_eq!(Hex::new(i32::MIN + 1, 0).ulength(), u32::MAX / 2);
}

#[test]
fn rotation() {
    let neighbors = Hex::ZERO().all_neighbors();
    for elems in neighbors.windows(2) {
        let [next, prev] = [elems[0], elems[1]];
        let prev_dir = Hex::ZERO().way_to(prev).unwrap();
        let next_dir = Hex::ZERO().way_to(next).unwrap();
        assert_eq!(prev.clockwise(), next);
        assert_eq!(next.counter_clockwise(), prev);
        assert_eq!(prev_dir.clockwise(), next_dir);
        assert_eq!(next_dir.counter_clockwise(), prev_dir);
    }
}

#[test]
fn tests_rotate_right() {
    let point = Hex::new(5, 0);
    let new = point.clockwise();
    assert_eq!(new, Hex::new(0, 5));
    assert_eq!(point.rotate_cw(1), new);
    let new = new.clockwise();
    assert_eq!(new, Hex::new(-5, 5));
    assert_eq!(point.rotate_cw(2), new);
    let new = new.clockwise();
    assert_eq!(new, Hex::new(-5, 0));
    assert_eq!(point.rotate_cw(3), new);
    let new = new.clockwise();
    assert_eq!(new, Hex::new(0, -5));
    assert_eq!(point.rotate_cw(4), new);
    let new = new.clockwise();
    assert_eq!(new, Hex::new(5, -5));
    assert_eq!(point.rotate_cw(5), new);
    let new = new.clockwise();
    assert_eq!(new, point);
    assert_eq!(point.rotate_cw(6), new);
    assert_eq!(point.rotate_cw(7), point.rotate_cw(1));
    assert_eq!(point.rotate_cw(10), point.rotate_cw(4));
}

#[test]
fn tests_rotate_left() {
    let point = Hex::new(5, 0);
    let new = point.counter_clockwise();
    assert_eq!(new, Hex::new(5, -5));
    assert_eq!(point.rotate_ccw(1), new);
    let new = new.counter_clockwise();
    assert_eq!(new, Hex::new(0, -5));
    assert_eq!(point.rotate_ccw(2), new);
    let new = new.counter_clockwise();
    assert_eq!(new, Hex::new(-5, 0));
    assert_eq!(point.rotate_ccw(3), new);
    let new = new.counter_clockwise();
    assert_eq!(new, Hex::new(-5, 5));
    assert_eq!(point.rotate_ccw(4), new);
    let new = new.counter_clockwise();
    assert_eq!(new, Hex::new(0, 5));
    assert_eq!(point.rotate_ccw(5), new);
    let new = new.counter_clockwise();
    assert_eq!(new, point);
    assert_eq!(point.rotate_ccw(6), new);
    assert_eq!(point.rotate_ccw(7), point.rotate_ccw(1));
    assert_eq!(point.rotate_ccw(10), point.rotate_ccw(4));
}

#[test]
fn way_to_neighbors_is_their_direction() {
    for dir in Direction::iter() {
        let n = Hex::ZERO().neighbor(dir);
        assert_eq!(Hex::ZERO().main_direction_to(n), dir);
        assert_eq!(Hex::ZERO().neighbor_direction(n), Some(dir));
    }
    assert_eq!(Hex::ZERO().neighbor_direction(Hex::new(2, 0)), None);
}

#[test]
fn hex_sum_of() {
    assert_eq!(Hex::sum_of(&[]), Hex::ZERO());
    assert_eq!(Hex::sum_of(&[Hex::ZERO(), Hex::X()]), Hex::X());
    assert_eq!(Hex::sum_of(&[Hex::ZERO(), Hex::Y()]), Hex::Y());
    assert_eq!(Hex::sum_of(&[Hex::ZERO(), Hex::new(0, 1), Hex::ONE()]), Hex::new(1, 2));
    let line: Vec<Hex> = (0..=5).map(|x| Hex::new(x, 0)).collect();
    assert_eq!(Hex::sum_of(&line), Hex::new(15, 0));
}

#[test]
fn hex_product_of() {
    assert_eq!(Hex::product_of(&[]), Hex::ONE());
    let line: Vec<Hex> = (1..=5).map(|x| Hex::new(x, 0)).collect();
    assert_eq!(Hex::product_of(&line), Hex::new((1..=5).product(), 0));
    assert_eq!(Hex::product_of(&[Hex::new(2, -3), Hex::new(-4, 5)]), Hex::new(-8, -15));
}

#[test]
fn rotation_laws() {
    let hexes = [Hex::new(3, -7), Hex::new(-4, 2), Hex::new(0, 5), Hex::new(11, 11)];
    for h in hexes {
        for m in 0..14u32 {
            assert_eq!(h.rotate_cw(m), h.rotate_cw(m % 6));
            assert_eq!(h.rotate_cw(m).rotate_ccw(m), h);
            assert_eq!(h.rotate_ccw(m).rotate_cw(m), h);
            assert_eq!(h.rotate_cw(m).ulength(), h.ulength());
            for b in hexes {
                assert_eq!((h + b).rotate_cw(m), h.rotate_cw(m) + b.rotate_cw(m));
            }
            let c = Hex::new(-2, 9);
            let r = h.rotate_cw_around(c, m);
            assert_eq!(r.rotate_ccw_around(c, m), h);
            assert_eq!(c.unsigned_distance_to(r), c.unsigned_distance_to(h));
            assert_eq!(c.rotate_cw_around(c, m), c);
        }
        assert_eq!(h.rotate_cw(1), h.clockwise());
        assert_eq!(h.rotate_cw(3), -h);
        assert_eq!(h.rotate_cw_around(Hex::new(1, 1), 6), h);
    }
}

#[test]
fn higher_res_is_linear() {
    let a = Hex::new(3, -2);
    let b = Hex::new(-5, 7);
    for radius in 0..5u32 {
        assert_eq!((a + b).to_higher_res(radius), a.to_higher_res(radius) + b.to_higher_res(radius));
        assert_eq!(Hex::ZERO().to_higher_res(radius), Hex::ZERO());
        for d in Hex::NEIGHBORS_COORDS() {
            assert_eq!(d.to_higher_res(radius).ulength(), 2 * radius + 1);
        }
    }
    assert_eq!(Hex::new(1, 0).to_higher_res(1), Hex::new(3, -1));
}
