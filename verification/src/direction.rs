//! The six neighbor directions and the six diagonal directions of a hexagon.
use vstd::prelude::*;

verus! {

/// All 6 possible neighbor directions in hexagonal space, in counter clockwise
/// order starting from `TopRight`.
///
/// Rotating *clockwise* goes from `Top` to `TopRight`; rotating *counter
/// clockwise* goes from `TopRight` to `Top`.
#[derive(Clone, Copy, Debug, PartialEq, Eq, Hash, Structural)]
pub enum Direction {
    /// Direction to (1, -1)
    TopRight,
    /// Direction to (0, -1)
    Top,
    /// Direction to (-1, 0)
    TopLeft,
    /// Direction to (-1, 1)
    BottomLeft,
    /// Direction to (0, 1)
    Bottom,
    /// Direction to (1, 0)
    BottomRight,
}

/// All 6 possible diagonal directions in hexagonal space, in counter clockwise
/// order starting from `Right`.
#[derive(Clone, Copy, Debug, Default, PartialEq, Eq, Hash, Structural)]
pub enum DiagonalDirection {
    /// Diagonal to (2, -1)
    #[default]
    Right,
    /// Diagonal to (1, -2)
    TopRight,
    /// Diagonal to (-1, -1)
    TopLeft,
    /// Diagonal to (-2, 1)
    Left,
    /// Diagonal to (-1, 2)
    BottomLeft,
    /// Diagonal to (1, 1)
    BottomRight,
}

/// Reduces `i` modulo 6 into `0..6`.
pub open spec fn mod6(i: int) -> int {
    i % 6
}

impl Direction {
    /// The position of the direction in counter clockwise order, `0..6`.
    pub open spec fn idx(self) -> int {
        match self {
            Direction::TopRight => 0,
            Direction::Top => 1,
            Direction::TopLeft => 2,
            Direction::BottomLeft => 3,
            Direction::Bottom => 4,
            Direction::BottomRight => 5,
        }
    }

    /// The direction at position `i` (taken modulo 6) in counter clockwise order.
    pub open spec fn from_idx(i: int) -> Direction {
        let k = mod6(i);
        if k == 0 {
            Direction::TopRight
        } else if k == 1 {
            Direction::Top
        } else if k == 2 {
            Direction::TopLeft
        } else if k == 3 {
            Direction::BottomLeft
        } else if k == 4 {
            Direction::Bottom
        } else {
            Direction::BottomRight
        }
    }

    /// All 6 directions, in counter clockwise order
    pub const ALL_DIRECTIONS: [Direction; 6] = [
        Direction::TopRight,
        Direction::Top,
        Direction::TopLeft,
        Direction::BottomLeft,
        Direction::Bottom,
        Direction::BottomRight,
    ];

    /// Returns the position of the direction in `ALL_DIRECTIONS`
    pub fn index(self) -> (r: usize)
        ensures
            r == self.idx(),
    {
        match self {
            Direction::TopRight => 0,
            Direction::Top => 1,
            Direction::TopLeft => 2,
            Direction::BottomLeft => 3,
            Direction::Bottom => 4,
            Direction::BottomRight => 5,
        }
    }

    /// Returns the direction at position `i % 6`
    pub fn from_index(i: usize) -> (r: Self)
        ensures
            r == Self::from_idx(i as int),
            r.idx() == i % 6,
    {
        match i % 6 {
            0 => Direction::TopRight,
            1 => Direction::Top,
            2 => Direction::TopLeft,
            3 => Direction::BottomLeft,
            4 => Direction::Bottom,
            _ => Direction::BottomRight,
        }
    }

    /// All 6 directions in counter clockwise order
    pub fn iter() -> (r: Vec<Self>)
        ensures
            r.len() == 6,
            forall|i: int| 0 <= i < 6 ==> (#[trigger] r@[i]).idx() == i,
    {
        vec![
            Direction::TopRight,
            Direction::Top,
            Direction::TopLeft,
            Direction::BottomLeft,
            Direction::Bottom,
            Direction::BottomRight,
        ]
    }

    /// Computes the opposite direction of `self`
    pub fn const_neg(self) -> (r: Self)
        ensures
            r.idx() == (self.idx() + 3) % 6,
    {
        Self::from_index(self.index() + 3)
    }

    /// Returns the next direction in clockwise order
    pub fn clockwise(self) -> (r: Self)
        ensures
            r.idx() == (self.idx() + 5) % 6,
    {
        Self::from_index(self.index() + 5)
    }

    /// Returns the next direction in counter clockwise order
    pub fn counter_clockwise(self) -> (r: Self)
        ensures
            r.idx() == (self.idx() + 1) % 6,
    {
        Self::from_index(self.index() + 1)
    }

    /// Rotates `self` counter clockwise by `offset` amount.
    pub fn rotate_ccw(self, offset: usize) -> (r: Self)
        ensures
            r.idx() == (self.idx() + offset % 6) % 6,
    {
        Self::from_index(self.index() + offset % 6)
    }

    /// Rotates `self` clockwise by `offset` amount.
    pub fn rotate_cw(self, offset: usize) -> (r: Self)
        ensures
            r.idx() == (self.idx() + 6 - offset % 6) % 6,
    {
        Self::from_index(self.index() + 6 - offset % 6)
    }

    /// The diagonal direction next to `self`, counter clockwise
    pub fn diagonal_ccw(self) -> (r: DiagonalDirection)
        ensures
            r.idx() == (self.idx() + 1) % 6,
    {
        DiagonalDirection::from_index(self.index() + 1)
    }

    /// The diagonal direction next to `self`, clockwise
    pub fn diagonal_cw(self) -> (r: DiagonalDirection)
        ensures
            r.idx() == self.idx(),
    {
        DiagonalDirection::from_index(self.index())
    }
}

impl DiagonalDirection {
    /// The position of the diagonal in counter clockwise order, `0..6`.
    pub open spec fn idx(self) -> int {
        match self {
            DiagonalDirection::Right => 0,
            DiagonalDirection::TopRight => 1,
            DiagonalDirection::TopLeft => 2,
            DiagonalDirection::Left => 3,
            DiagonalDirection::BottomLeft => 4,
            DiagonalDirection::BottomRight => 5,
        }
    }

    /// The diagonal at position `i` (taken modulo 6) in counter clockwise order.
    pub open spec fn from_idx(i: int) -> DiagonalDirection {
        let k = mod6(i);
        if k == 0 {
            DiagonalDirection::Right
        } else if k == 1 {
            DiagonalDirection::TopRight
        } else if k == 2 {
            DiagonalDirection::TopLeft
        } else if k == 3 {
            DiagonalDirection::Left
        } else if k == 4 {
            DiagonalDirection::BottomLeft
        } else {
            DiagonalDirection::BottomRight
        }
    }

    /// All 6 diagonal directions, in counter clockwise order
    pub const ALL_DIRECTIONS: [DiagonalDirection; 6] = [
        DiagonalDirection::Right,
        DiagonalDirection::TopRight,
        DiagonalDirection::TopLeft,
        DiagonalDirection::Left,
        DiagonalDirection::BottomLeft,
        DiagonalDirection::BottomRight,
    ];

    /// Returns the position of the diagonal in `ALL_DIRECTIONS`
    pub fn index(self) -> (r: usize)
        ensures
            r == self.idx(),
    {
        match self {
            DiagonalDirection::Right => 0,
            DiagonalDirection::TopRight => 1,
            DiagonalDirection::TopLeft => 2,
            DiagonalDirection::Left => 3,
            DiagonalDirection::BottomLeft => 4,
            DiagonalDirection::BottomRight => 5,
        }
    }

    /// Returns the diagonal at position `i % 6`
    pub fn from_index(i: usize) -> (r: Self)
        ensures
            r == Self::from_idx(i as int),
            r.idx() == i % 6,
    {
        match i % 6 {
            0 => DiagonalDirection::Right,
            1 => DiagonalDirection::TopRight,
            2 => DiagonalDirection::TopLeft,
            3 => DiagonalDirection::Left,
            4 => DiagonalDirection::BottomLeft,
            _ => DiagonalDirection::BottomRight,
        }
    }

    /// All 6 diagonal directions in counter clockwise order
    pub fn iter() -> (r: Vec<Self>)
        ensures
            r.len() == 6,
            forall|i: int| 0 <= i < 6 ==> (#[trigger] r@[i]).idx() == i,
    {
        vec![
            DiagonalDirection::Right,
            DiagonalDirection::TopRight,
            DiagonalDirection::TopLeft,
            DiagonalDirection::Left,
            DiagonalDirection::BottomLeft,
            DiagonalDirection::BottomRight,
        ]
    }

    /// Computes the opposite direction of `self`
    pub fn const_neg(self) -> (r: Self)
        ensures
            r.idx() == (self.idx() + 3) % 6,
    {
        Self::from_index(self.index() + 3)
    }

    /// Returns the next direction in clockwise order (deprecated name of
    /// `clockwise`)
    pub fn right(self) -> (r: Self)
        ensures
            r.idx() == (self.idx() + 5) % 6,
    {
        self.clockwise()
    }

    /// Returns the next direction in clockwise order
    pub fn clockwise(self) -> (r: Self)
        ensures
            r.idx() == (self.idx() + 5) % 6,
    {
        Self::from_index(self.index() + 5)
    }

    /// Returns the next direction in counter clockwise order (deprecated name of
    /// `counter_clockwise`)
    pub fn left(self) -> (r: Self)
        ensures
            r.idx() == (self.idx() + 1) % 6,
    {
        self.counter_clockwise()
    }

    /// Returns the next direction in counter clockwise order
    pub fn counter_clockwise(self) -> (r: Self)
        ensures
            r.idx() == (self.idx() + 1) % 6,
    {
        Self::from_index(self.index() + 1)
    }

    /// Rotates `self` counter clockwise by `offset` amount (deprecated name of
    /// `rotate_ccw`)
    pub fn rotate_left(self, offset: usize) -> (r: Self)
        ensures
            r.idx() == (self.idx() + offset % 6) % 6,
    {
        self.rotate_ccw(offset)
    }

    /// Rotates `self` counter clockwise by `offset` amount.
    pub fn rotate_ccw(self, offset: usize) -> (r: Self)
        ensures
            r.idx() == (self.idx() + offset % 6) % 6,
    {
        Self::from_index(self.index() + offset % 6)
    }

    /// Rotates `self` clockwise by `offset` amount (deprecated name of
    /// `rotate_cw`)
    pub fn rotate_right(self, offset: usize) -> (r: Self)
        ensures
            r.idx() == (self.idx() + 6 - offset % 6) % 6,
    {
        self.rotate_cw(offset)
    }

    /// Rotates `self` clockwise by `offset` amount.
    pub fn rotate_cw(self, offset: usize) -> (r: Self)
        ensures
            r.idx() == (self.idx() + 6 - offset % 6) % 6,
    {
        Self::from_index(self.index() + 6 - offset % 6)
    }

    /// The neighbor direction next to `self`, counter clockwise (deprecated name
    /// of `direction_ccw`)
    pub fn direction_left(self) -> (r: Direction)
        ensures
            r.idx() == self.idx(),
    {
        self.direction_ccw()
    }

    /// The neighbor direction next to `self`, counter clockwise
    pub fn direction_ccw(self) -> (r: Direction)
        ensures
            r.idx() == self.idx(),
    {
        Direction::from_index(self.index())
    }

    /// The neighbor direction next to `self`, clockwise (deprecated name of
    /// `direction_cw`)
    pub fn direction_right(self) -> (r: Direction)
        ensures
            r.idx() == (self.idx() + 5) % 6,
    {
        self.direction_cw()
    }

    /// The neighbor direction next to `self`, clockwise
    pub fn direction_cw(self) -> (r: Direction)
        ensures
            r.idx() == (self.idx() + 5) % 6,
    {
        Direction::from_index(self.index() + 5)
    }
}

/// Each direction is determined by its position.
pub proof fn lemma_direction_idx_injective(a: Direction, b: Direction)
    ensures
        0 <= a.idx() < 6,
        (a.idx() == b.idx()) == (a == b),
        Direction::from_idx(a.idx()) == a,
{
}

/// Each diagonal direction is determined by its position.
pub proof fn lemma_diagonal_idx_injective(a: DiagonalDirection, b: DiagonalDirection)
    ensures
        0 <= a.idx() < 6,
        (a.idx() == b.idx()) == (a == b),
        DiagonalDirection::from_idx(a.idx()) == a,
{
}

} // verus!
