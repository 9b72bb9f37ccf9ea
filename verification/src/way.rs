//! Directions towards a coordinate, which may be a tie between two directions.
use crate::direction::{DiagonalDirection, Direction};
use crate::edge_direction::{EdgeDirection, VertexDirection};
use vstd::prelude::*;

verus! {

/// A direction way: a `Single` direction or a `Tie` between two directions.
#[derive(Clone, Copy, Debug, PartialEq, Eq, Structural)]
pub enum DirectionWay<T> {
    /// Single direction
    Single(T),
    /// Tie between two directions
    Tie([T; 2]),
}

/// Directions that can be rotated and negated.
pub trait Way: Copy + Sized {
    /// The next direction counter clockwise.
    spec fn ccw_of(self) -> Self;

    /// The next direction clockwise.
    spec fn cw_of(self) -> Self;

    /// The opposite direction.
    spec fn opposite_of(self) -> Self;

    /// Returns the next direction counter clockwise
    fn ccw(self) -> (r: Self)
        ensures
            r == self.ccw_of(),
    ;

    /// Returns the next direction clockwise
    fn cw(self) -> (r: Self)
        ensures
            r == self.cw_of(),
    ;

    /// Returns the opposite direction
    fn opposite(self) -> (r: Self)
        ensures
            r == self.opposite_of(),
    ;
}

impl Way for Direction {
    open spec fn ccw_of(self) -> Self {
        Direction::from_idx(self.idx() + 1)
    }

    open spec fn cw_of(self) -> Self {
        Direction::from_idx(self.idx() + 5)
    }

    open spec fn opposite_of(self) -> Self {
        Direction::from_idx(self.idx() + 3)
    }

    fn ccw(self) -> (r: Self) {
        let r = self.counter_clockwise();
        proof {
            crate::direction::lemma_direction_idx_injective(r, Direction::from_idx(self.idx() + 1));
        }
        r
    }

    fn cw(self) -> (r: Self) {
        let r = self.clockwise();
        proof {
            crate::direction::lemma_direction_idx_injective(r, Direction::from_idx(self.idx() + 5));
        }
        r
    }

    fn opposite(self) -> (r: Self) {
        let r = self.const_neg();
        proof {
            crate::direction::lemma_direction_idx_injective(r, Direction::from_idx(self.idx() + 3));
        }
        r
    }
}

impl Way for DiagonalDirection {
    open spec fn ccw_of(self) -> Self {
        DiagonalDirection::from_idx(self.idx() + 1)
    }

    open spec fn cw_of(self) -> Self {
        DiagonalDirection::from_idx(self.idx() + 5)
    }

    open spec fn opposite_of(self) -> Self {
        DiagonalDirection::from_idx(self.idx() + 3)
    }

    fn ccw(self) -> (r: Self) {
        let r = self.counter_clockwise();
        proof {
            crate::direction::lemma_diagonal_idx_injective(r, DiagonalDirection::from_idx(self.idx() + 1));
            crate::direction::lemma_diagonal_idx_injective(r, r);
        }
        r
    }

    fn cw(self) -> (r: Self) {
        let r = self.clockwise();
        proof {
            crate::direction::lemma_diagonal_idx_injective(r, DiagonalDirection::from_idx(self.idx() + 5));
            crate::direction::lemma_diagonal_idx_injective(r, r);
        }
        r
    }

    fn opposite(self) -> (r: Self) {
        let r = self.const_neg();
        proof {
            crate::direction::lemma_diagonal_idx_injective(r, DiagonalDirection::from_idx(self.idx() + 3));
            crate::direction::lemma_diagonal_idx_injective(r, r);
        }
        r
    }
}

impl Way for EdgeDirection {
    open spec fn ccw_of(self) -> Self {
        EdgeDirection::from_idx(self.idx() + 5)
    }

    open spec fn cw_of(self) -> Self {
        EdgeDirection::from_idx(self.idx() + 1)
    }

    open spec fn opposite_of(self) -> Self {
        EdgeDirection::from_idx(self.idx() + 3)
    }

    fn ccw(self) -> (r: Self) {
        let r = self.counter_clockwise();
        proof {
            r.lemma_idx(EdgeDirection::from_idx(self.idx() + 5), self.idx() + 5);
        }
        r
    }

    fn cw(self) -> (r: Self) {
        let r = self.clockwise();
        proof {
            r.lemma_idx(EdgeDirection::from_idx(self.idx() + 1), self.idx() + 1);
        }
        r
    }

    fn opposite(self) -> (r: Self) {
        let r = self.const_neg();
        proof {
            r.lemma_idx(EdgeDirection::from_idx(self.idx() + 3), self.idx() + 3);
        }
        r
    }
}

impl Way for VertexDirection {
    open spec fn ccw_of(self) -> Self {
        VertexDirection::from_idx(self.idx() + 5)
    }

    open spec fn cw_of(self) -> Self {
        VertexDirection::from_idx(self.idx() + 1)
    }

    open spec fn opposite_of(self) -> Self {
        VertexDirection::from_idx(self.idx() + 3)
    }

    fn ccw(self) -> (r: Self) {
        let r = self.counter_clockwise();
        proof {
            r.lemma_idx(VertexDirection::from_idx(self.idx() + 5), self.idx() + 5);
        }
        r
    }

    fn cw(self) -> (r: Self) {
        let r = self.clockwise();
        proof {
            r.lemma_idx(VertexDirection::from_idx(self.idx() + 1), self.idx() + 1);
        }
        r
    }

    fn opposite(self) -> (r: Self) {
        let r = self.const_neg();
        proof {
            r.lemma_idx(VertexDirection::from_idx(self.idx() + 3), self.idx() + 3);
        }
        r
    }
}

/// The way built from a main direction `dir` (negated when `is_neg`), tied
/// with its counter clockwise neighbor when `eq_left`, or else with its
/// clockwise neighbor when `eq_right`.
pub open spec fn way_from_spec<T: Way>(
    is_neg: bool,
    eq_left: bool,
    eq_right: bool,
    dir: T,
) -> DirectionWay<T> {
    let d = if is_neg {
        dir.opposite_of()
    } else {
        dir
    };
    if eq_left {
        DirectionWay::Tie([d, d.ccw_of()])
    } else if eq_right {
        DirectionWay::Tie([d, d.cw_of()])
    } else {
        DirectionWay::Single(d)
    }
}

impl<T: Copy> DirectionWay<T> {
    /// The `Single` direction, or the first of the two directions of a `Tie`.
    pub open spec fn first(self) -> T {
        match self {
            DirectionWay::Single(v) => v,
            DirectionWay::Tie(v) => v[0],
        }
    }

    /// Whether `dir` is one of the directions of the way.
    pub open spec fn holds(self, dir: T) -> bool {
        match self {
            DirectionWay::Single(d) => d == dir,
            DirectionWay::Tie(v) => v[0] == dir || v[1] == dir,
        }
    }

    /// Resolves the way and returns the `Single` direction or the first of the
    /// two in a `Tie`.
    pub fn unwrap(self) -> (r: T)
        ensures
            r == self.first(),
    {
        match self {
            DirectionWay::Single(v) => v,
            DirectionWay::Tie(v) => v[0],
        }
    }

    /// Returns the way with `func` applied to its directions
    pub fn map<U, F: Fn(T) -> U>(self, func: F) -> (r: DirectionWay<U>)
        requires
            forall|t: T| #[trigger] func.requires((t,)),
        ensures
            match (self, r) {
                (DirectionWay::Single(a), DirectionWay::Single(b)) => func.ensures((a,), b),
                (DirectionWay::Tie(a), DirectionWay::Tie(b)) => func.ensures((a[0],), b[0])
                    && func.ensures((a[1],), b[1]),
                _ => false,
            },
    {
        match self {
            DirectionWay::Single(v) => DirectionWay::Single(func(v)),
            DirectionWay::Tie(v) => DirectionWay::Tie([func(v[0]), func(v[1])]),
        }
    }
}

impl DirectionWay<Direction> {
    /// Whether the way includes the given `dir`
    pub fn contains(&self, dir: &Direction) -> (r: bool)
        ensures
            r == (match *self {
                DirectionWay::Single(d) => d == *dir,
                DirectionWay::Tie(v) => v[0] == *dir || v[1] == *dir,
            }),
            r == (*self).holds(*dir),
    {
        match self {
            DirectionWay::Single(d) => *d == *dir,
            DirectionWay::Tie(v) => v[0] == *dir || v[1] == *dir,
        }
    }
}

impl DirectionWay<DiagonalDirection> {
    /// Whether the way includes the given `dir`
    pub fn contains(&self, dir: &DiagonalDirection) -> (r: bool)
        ensures
            r == (match *self {
                DirectionWay::Single(d) => d == *dir,
                DirectionWay::Tie(v) => v[0] == *dir || v[1] == *dir,
            }),
            r == (*self).holds(*dir),
    {
        match self {
            DirectionWay::Single(d) => *d == *dir,
            DirectionWay::Tie(v) => v[0] == *dir || v[1] == *dir,
        }
    }
}

impl DirectionWay<EdgeDirection> {
    /// Whether the way includes the given `dir`
    pub fn contains(&self, dir: &EdgeDirection) -> (r: bool)
        ensures
            r == (match *self {
                DirectionWay::Single(d) => d == *dir,
                DirectionWay::Tie(v) => v[0] == *dir || v[1] == *dir,
            }),
            r == (*self).holds(*dir),
    {
        match self {
            DirectionWay::Single(d) => *d == *dir,
            DirectionWay::Tie(v) => v[0] == *dir || v[1] == *dir,
        }
    }
}

impl DirectionWay<VertexDirection> {
    /// Whether the way includes the given `dir`
    pub fn contains(&self, dir: &VertexDirection) -> (r: bool)
        ensures
            r == (match *self {
                DirectionWay::Single(d) => d == *dir,
                DirectionWay::Tie(v) => v[0] == *dir || v[1] == *dir,
            }),
            r == (*self).holds(*dir),
    {
        match self {
            DirectionWay::Single(d) => *d == *dir,
            DirectionWay::Tie(v) => v[0] == *dir || v[1] == *dir,
        }
    }
}

/// The direction a way resolves to is always one of its directions.
pub proof fn lemma_unwrap_is_held<T: Copy>(w: DirectionWay<T>)
    ensures
        w.holds(w.first()),
{
}

impl<T: Way> DirectionWay<T> {
    /// Builds the way from a main direction `dir` (negated when `is_neg`), tied
    /// with its counter clockwise neighbor when `eq_left`, or else with its
    /// clockwise neighbor when `eq_right`.
    pub fn way_from(is_neg: bool, eq_left: bool, eq_right: bool, dir: T) -> (r: Self)
        ensures
            r == way_from_spec(is_neg, eq_left, eq_right, dir),
    {
        let dir = if is_neg {
            dir.opposite()
        } else {
            dir
        };
        if eq_left {
            DirectionWay::Tie([dir, dir.ccw()])
        } else if eq_right {
            DirectionWay::Tie([dir, dir.cw()])
        } else {
            DirectionWay::Single(dir)
        }
    }
}

impl<T> std::convert::From<[T; 2]> for DirectionWay<T> {
    fn from(value: [T; 2]) -> DirectionWay<T> {
        DirectionWay::Tie(value)
    }
}

impl<T> vstd::std_specs::convert::FromSpecImpl<[T; 2]> for DirectionWay<T> {
    open spec fn obeys_from_spec() -> bool {
        true
    }

    open spec fn from_spec(v: [T; 2]) -> DirectionWay<T> {
        DirectionWay::Tie(v)
    }
}

} // verus!
