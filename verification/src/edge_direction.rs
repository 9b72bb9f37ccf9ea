//! Edge (neighbor) and vertex (diagonal) directions stored as an index in `0..6`.
use crate::hex::Hex;
use vstd::prelude::*;

verus! {

/// All 6 possible neighbor/edge directions in hexagonal space, stored as an
/// index between 0 and 5: `X` (1, 0), `Y` (0, 1), `NEG_X_Y` (-1, 1), `NEG_X`
/// (-1, 0), `NEG_Y` (0, -1) and `X_NEG_Y` (1, -1), see [`edge_x`] and
/// [`edge_y`].
///
/// Rotating *clockwise* increases the index, rotating *counter clockwise*
/// decreases it.
#[derive(Clone, Copy, Debug, Default, PartialEq, Eq, Hash, Structural)]
pub struct EdgeDirection(pub(crate) u8);

/// All 6 possible diagonal/vertex directions in hexagonal space, stored as an
/// index between 0 and 5: `X` (2, -1), `NEG_Z` (1, 1), `Y` (-1, 2), `NEG_X`
/// (-2, 1), `Z` (-1, -1) and `NEG_Y` (1, -2), see [`vertex_x`] and
/// [`vertex_y`]. The vertex at index `i` lies between the edges at indices
/// `i - 1` and `i`.
///
/// Rotating *clockwise* increases the index, rotating *counter clockwise*
/// decreases it.
#[derive(Clone, Copy, Debug, Default, PartialEq, Eq, Hash, Structural)]
pub struct VertexDirection(pub(crate) u8);

/// `x` offset of the edge direction at index `i`.
pub open spec fn edge_x(i: int) -> int {
    if i == 0 {
        1
    } else if i == 1 {
        0
    } else if i == 2 {
        -1
    } else if i == 3 {
        -1
    } else if i == 4 {
        0
    } else {
        1
    }
}

/// `y` offset of the edge direction at index `i`.
pub open spec fn edge_y(i: int) -> int {
    if i == 0 {
        0
    } else if i == 1 {
        1
    } else if i == 2 {
        1
    } else if i == 3 {
        0
    } else if i == 4 {
        -1
    } else {
        -1
    }
}

/// `x` offset of the vertex direction at index `i`.
pub open spec fn vertex_x(i: int) -> int {
    if i == 0 {
        2
    } else if i == 1 {
        1
    } else if i == 2 {
        -1
    } else if i == 3 {
        -2
    } else if i == 4 {
        -1
    } else {
        1
    }
}

/// `y` offset of the vertex direction at index `i`.
pub open spec fn vertex_y(i: int) -> int {
    if i == 0 {
        -1
    } else if i == 1 {
        1
    } else if i == 2 {
        2
    } else if i == 3 {
        1
    } else if i == 4 {
        -1
    } else {
        -2
    }
}

impl EdgeDirection {
    /// Direction towards `X, -Y` (index 5)
    #[allow(non_snake_case)]
    pub fn X_NEG_Y() -> (r: EdgeDirection)
        ensures
            r.idx() == 5,
    {
        EdgeDirection(5)
    }

    /// "Top right" edge in flat orientation (index 5)
    #[allow(non_snake_case)]
    pub fn FLAT_TOP_RIGHT() -> (r: EdgeDirection)
        ensures
            r.idx() == 5,
    {
        EdgeDirection(5)
    }

    /// "North East" edge in flat orientation (index 5)
    #[allow(non_snake_case)]
    pub fn FLAT_NORTH_EAST() -> (r: EdgeDirection)
        ensures
            r.idx() == 5,
    {
        EdgeDirection(5)
    }

    /// "Top Right" edge in pointy orientation (index 5)
    #[allow(non_snake_case)]
    pub fn POINTY_TOP_RIGHT() -> (r: EdgeDirection)
        ensures
            r.idx() == 5,
    {
        EdgeDirection(5)
    }

    /// "North East" edge in pointy orientation (index 5)
    #[allow(non_snake_case)]
    pub fn POINTY_NORTH_EAST() -> (r: EdgeDirection)
        ensures
            r.idx() == 5,
    {
        EdgeDirection(5)
    }

    /// Direction towards `-Y` (index 4)
    #[allow(non_snake_case)]
    pub fn NEG_Y() -> (r: EdgeDirection)
        ensures
            r.idx() == 4,
    {
        EdgeDirection(4)
    }

    /// "Top" edge in flat orientation (index 4)
    #[allow(non_snake_case)]
    pub fn FLAT_TOP() -> (r: EdgeDirection)
        ensures
            r.idx() == 4,
    {
        EdgeDirection(4)
    }

    /// "North" edge in flat orientation (index 4)
    #[allow(non_snake_case)]
    pub fn FLAT_NORTH() -> (r: EdgeDirection)
        ensures
            r.idx() == 4,
    {
        EdgeDirection(4)
    }

    /// "Top Left" edge in pointy orientation (index 4)
    #[allow(non_snake_case)]
    pub fn POINTY_TOP_LEFT() -> (r: EdgeDirection)
        ensures
            r.idx() == 4,
    {
        EdgeDirection(4)
    }

    /// "North West" edge in pointy orientation (index 4)
    #[allow(non_snake_case)]
    pub fn POINTY_NORTH_WEST() -> (r: EdgeDirection)
        ensures
            r.idx() == 4,
    {
        EdgeDirection(4)
    }

    /// Direction towards `-X` (index 3)
    #[allow(non_snake_case)]
    pub fn NEG_X() -> (r: EdgeDirection)
        ensures
            r.idx() == 3,
    {
        EdgeDirection(3)
    }

    /// "Top Left" edge in flat orientation (index 3)
    #[allow(non_snake_case)]
    pub fn FLAT_TOP_LEFT() -> (r: EdgeDirection)
        ensures
            r.idx() == 3,
    {
        EdgeDirection(3)
    }

    /// "North West" edge in flat orientation (index 3)
    #[allow(non_snake_case)]
    pub fn FLAT_NORTH_WEST() -> (r: EdgeDirection)
        ensures
            r.idx() == 3,
    {
        EdgeDirection(3)
    }

    /// "Left" edge in pointy orientation (index 3)
    #[allow(non_snake_case)]
    pub fn POINTY_LEFT() -> (r: EdgeDirection)
        ensures
            r.idx() == 3,
    {
        EdgeDirection(3)
    }

    /// "West" edge in pointy orientation (index 3)
    #[allow(non_snake_case)]
    pub fn POINTY_WEST() -> (r: EdgeDirection)
        ensures
            r.idx() == 3,
    {
        EdgeDirection(3)
    }

    /// Direction towards `-X, Y` (index 2)
    #[allow(non_snake_case)]
    pub fn NEG_X_Y() -> (r: EdgeDirection)
        ensures
            r.idx() == 2,
    {
        EdgeDirection(2)
    }

    /// "Bottom Left" edge in flat orientation (index 2)
    #[allow(non_snake_case)]
    pub fn FLAT_BOTTOM_LEFT() -> (r: EdgeDirection)
        ensures
            r.idx() == 2,
    {
        EdgeDirection(2)
    }

    /// "South West" edge in flat orientation (index 2)
    #[allow(non_snake_case)]
    pub fn FLAT_SOUTH_WEST() -> (r: EdgeDirection)
        ensures
            r.idx() == 2,
    {
        EdgeDirection(2)
    }

    /// "Bottom Left" edge in pointy orientation (index 2)
    #[allow(non_snake_case)]
    pub fn POINTY_BOTTOM_LEFT() -> (r: EdgeDirection)
        ensures
            r.idx() == 2,
    {
        EdgeDirection(2)
    }

    /// "South West" edge in pointy orientation (index 2)
    #[allow(non_snake_case)]
    pub fn POINTY_SOUTH_WEST() -> (r: EdgeDirection)
        ensures
            r.idx() == 2,
    {
        EdgeDirection(2)
    }

    /// Direction towards `Y` (index 1)
    #[allow(non_snake_case)]
    pub fn Y() -> (r: EdgeDirection)
        ensures
            r.idx() == 1,
    {
        EdgeDirection(1)
    }

    /// "Bottom" edge in flat orientation (index 1)
    #[allow(non_snake_case)]
    pub fn FLAT_BOTTOM() -> (r: EdgeDirection)
        ensures
            r.idx() == 1,
    {
        EdgeDirection(1)
    }

    /// "South" edge in flat orientation (index 1)
    #[allow(non_snake_case)]
    pub fn FLAT_SOUTH() -> (r: EdgeDirection)
        ensures
            r.idx() == 1,
    {
        EdgeDirection(1)
    }

    /// "Bottom Right" edge in pointy orientation (index 1)
    #[allow(non_snake_case)]
    pub fn POINTY_BOTTOM_RIGHT() -> (r: EdgeDirection)
        ensures
            r.idx() == 1,
    {
        EdgeDirection(1)
    }

    /// "South East" edge in pointy orientation (index 1)
    #[allow(non_snake_case)]
    pub fn POINTY_SOUTH_EAST() -> (r: EdgeDirection)
        ensures
            r.idx() == 1,
    {
        EdgeDirection(1)
    }

    /// Direction towards `X` (index 0)
    #[allow(non_snake_case)]
    pub fn X() -> (r: EdgeDirection)
        ensures
            r.idx() == 0,
    {
        EdgeDirection(0)
    }

    /// "Bottom Right" edge in flat orientation (index 0)
    #[allow(non_snake_case)]
    pub fn FLAT_BOTTOM_RIGHT() -> (r: EdgeDirection)
        ensures
            r.idx() == 0,
    {
        EdgeDirection(0)
    }

    /// "South East" edge in flat orientation (index 0)
    #[allow(non_snake_case)]
    pub fn FLAT_SOUTH_EAST() -> (r: EdgeDirection)
        ensures
            r.idx() == 0,
    {
        EdgeDirection(0)
    }

    /// "Right" edge in pointy orientation (index 0)
    #[allow(non_snake_case)]
    pub fn POINTY_RIGHT() -> (r: EdgeDirection)
        ensures
            r.idx() == 0,
    {
        EdgeDirection(0)
    }

    /// "East" edge in pointy orientation (index 0)
    #[allow(non_snake_case)]
    pub fn POINTY_EAST() -> (r: EdgeDirection)
        ensures
            r.idx() == 0,
    {
        EdgeDirection(0)
    }

    /// The position of the direction, `0..6`.
    pub closed spec fn idx(self) -> int {
        self.0 as int
    }

    /// The direction at position `i` (taken modulo 6).
    pub closed spec fn from_idx(i: int) -> EdgeDirection {
        EdgeDirection((i % 6) as u8)
    }

    /// The value is a position in `0..6`.
    #[verifier::type_invariant]
    pub closed spec fn wf(self) -> bool {
        self.0 < 6
    }

    /// Two directions are equal exactly when their positions are; the
    /// direction at a position `i` has position `i % 6`.
    pub proof fn lemma_idx(self, other: Self, i: int)
        ensures
            (self.idx() == other.idx()) == (self == other),
            EdgeDirection::from_idx(i).idx() == i % 6,
    {
    }

    /// All 6 directions, in index order
    #[allow(non_snake_case)]
    pub fn ALL_DIRECTIONS() -> (r: [EdgeDirection; 6])
        ensures
            forall|i: int| 0 <= i < 6 ==> (#[trigger] r[i]).idx() == i,
    {
        [EdgeDirection(0), EdgeDirection(1), EdgeDirection(2), EdgeDirection(3), EdgeDirection(4), EdgeDirection(5)]
    }

    /// All 6 directions, in index order
    pub fn iter() -> (r: Vec<EdgeDirection>)
        ensures
            r.len() == 6,
            forall|i: int| 0 <= i < 6 ==> (#[trigger] r@[i]).idx() == i,
    {
        vec![EdgeDirection(0), EdgeDirection(1), EdgeDirection(2), EdgeDirection(3), EdgeDirection(4), EdgeDirection(5)]
    }

    /// Returns the inner index of the direction, from 0 to 5
    pub fn index(self) -> (r: u8)
        ensures
            r == self.idx(),
            r < 6,
    {
        proof {
            use_type_invariant(self);
        }
        self.0
    }

    /// Converts the direction to its hex coordinate offset
    pub fn into_hex(self) -> (r: Hex)
        ensures
            r.x == edge_x(self.idx()),
            r.y == edge_y(self.idx()),
    {
        proof {
            use_type_invariant(self);
        }
        // The table follows `Direction` order, which turns the other way
        // round and starts from (1, -1).
        let table = Hex::NEIGHBORS_COORDS();
        table[5 - self.0 as usize]
    }

    /// Computes the opposite direction of `self`
    pub fn const_neg(self) -> (r: Self)
        ensures
            r.idx() == (self.idx() + 3) % 6,
    {
        proof {
            use_type_invariant(self);
        }
        EdgeDirection((self.0 + 3) % 6)
    }

    /// Returns the next direction in clockwise order
    pub fn clockwise(self) -> (r: Self)
        ensures
            r.idx() == (self.idx() + 1) % 6,
    {
        proof {
            use_type_invariant(self);
        }
        EdgeDirection((self.0 + 1) % 6)
    }

    /// Returns the next direction in counter clockwise order
    pub fn counter_clockwise(self) -> (r: Self)
        ensures
            r.idx() == (self.idx() + 5) % 6,
    {
        proof {
            use_type_invariant(self);
        }
        EdgeDirection((self.0 + 5) % 6)
    }

    /// Rotates `self` counter clockwise by `offset` amount
    pub fn rotate_ccw(self, offset: u8) -> (r: Self)
        ensures
            r.idx() == (self.idx() + 6 - offset % 6) % 6,
    {
        proof {
            use_type_invariant(self);
        }
        EdgeDirection((self.0 + 6 - (offset % 6)) % 6)
    }

    /// Rotates `self` clockwise by `offset` amount
    pub fn rotate_cw(self, offset: u8) -> (r: Self)
        ensures
            r.idx() == (self.idx() + offset % 6) % 6,
    {
        proof {
            use_type_invariant(self);
        }
        EdgeDirection((self.0 + (offset % 6)) % 6)
    }

    /// Number of clockwise steps from `rhs` to `self`
    fn steps_between(self, rhs: Self) -> (r: u8)
        ensures
            r == (self.idx() + 6 - rhs.idx()) % 6,
    {
        proof {
            use_type_invariant(self);
            use_type_invariant(rhs);
        }
        (self.0 + 6 - rhs.0) % 6
    }

    /// Number of clockwise steps from `rhs` to `self`, `0..6`: the angle
    /// between them in units of 60 degrees
    pub fn steps_to(self, rhs: Self) -> (r: u8)
        ensures
            r == (self.idx() + 6 - rhs.idx()) % 6,
    {
        self.steps_between(rhs)
    }

    /// The vertex direction next to `self`, counter clockwise
    pub fn vertex_ccw(self) -> (r: VertexDirection)
        ensures
            r.idx() == self.idx(),
    {
        proof {
            use_type_invariant(self);
        }
        VertexDirection(self.0)
    }

    /// The vertex direction next to `self`, counter clockwise (alias of
    /// [`Self::vertex_ccw`])
    pub fn diagonal_ccw(self) -> (r: VertexDirection)
        ensures
            r.idx() == self.idx(),
    {
        self.vertex_ccw()
    }

    /// The vertex direction next to `self`, clockwise
    pub fn vertex_cw(self) -> (r: VertexDirection)
        ensures
            r.idx() == (self.idx() + 1) % 6,
    {
        VertexDirection(self.clockwise().0)
    }

    /// The vertex direction next to `self`, clockwise (alias of
    /// [`Self::vertex_cw`])
    pub fn diagonal_cw(self) -> (r: VertexDirection)
        ensures
            r.idx() == (self.idx() + 1) % 6,
    {
        self.vertex_cw()
    }

    /// The two vertex directions around `self`: counter clockwise, then
    /// clockwise
    pub fn vertex_directions(self) -> (r: [VertexDirection; 2])
        ensures
            r[0].idx() == self.idx(),
            r[1].idx() == (self.idx() + 1) % 6,
    {
        [self.vertex_ccw(), self.vertex_cw()]
    }
}

impl VertexDirection {
    /// Vertex towards `X, -Y, -Z` (index 0)
    #[allow(non_snake_case)]
    pub fn X_NEG_Y_NEG_Z() -> (r: VertexDirection)
        ensures
            r.idx() == 0,
    {
        VertexDirection(0)
    }

    /// Vertex towards `X` (index 0)
    #[allow(non_snake_case)]
    pub fn X() -> (r: VertexDirection)
        ensures
            r.idx() == 0,
    {
        VertexDirection(0)
    }

    /// "Right" vertex in flat orientation (index 0)
    #[allow(non_snake_case)]
    pub fn FLAT_RIGHT() -> (r: VertexDirection)
        ensures
            r.idx() == 0,
    {
        VertexDirection(0)
    }

    /// "East" vertex in flat orientation (index 0)
    #[allow(non_snake_case)]
    pub fn FLAT_EAST() -> (r: VertexDirection)
        ensures
            r.idx() == 0,
    {
        VertexDirection(0)
    }

    /// "Top Right" vertex in pointy orientation (index 0)
    #[allow(non_snake_case)]
    pub fn POINTY_TOP_RIGHT() -> (r: VertexDirection)
        ensures
            r.idx() == 0,
    {
        VertexDirection(0)
    }

    /// "North East" vertex in pointy orientation (index 0)
    #[allow(non_snake_case)]
    pub fn POINTY_NORTH_EAST() -> (r: VertexDirection)
        ensures
            r.idx() == 0,
    {
        VertexDirection(0)
    }

    /// Vertex towards `X, -Y, Z` (index 5)
    #[allow(non_snake_case)]
    pub fn X_NEG_Y_Z() -> (r: VertexDirection)
        ensures
            r.idx() == 5,
    {
        VertexDirection(5)
    }

    /// Vertex towards `-Y` (index 5)
    #[allow(non_snake_case)]
    pub fn NEG_Y() -> (r: VertexDirection)
        ensures
            r.idx() == 5,
    {
        VertexDirection(5)
    }

    /// "Top Right" vertex in flat orientation (index 5)
    #[allow(non_snake_case)]
    pub fn FLAT_TOP_RIGHT() -> (r: VertexDirection)
        ensures
            r.idx() == 5,
    {
        VertexDirection(5)
    }

    /// "North East" vertex in flat orientation (index 5)
    #[allow(non_snake_case)]
    pub fn FLAT_NORTH_EAST() -> (r: VertexDirection)
        ensures
            r.idx() == 5,
    {
        VertexDirection(5)
    }

    /// "Top" vertex in pointy orientation (index 5)
    #[allow(non_snake_case)]
    pub fn POINTY_TOP() -> (r: VertexDirection)
        ensures
            r.idx() == 5,
    {
        VertexDirection(5)
    }

    /// "North" vertex in pointy orientation (index 5)
    #[allow(non_snake_case)]
    pub fn POINTY_NORTH() -> (r: VertexDirection)
        ensures
            r.idx() == 5,
    {
        VertexDirection(5)
    }

    /// Vertex towards `-X, -Y` (index 4)
    #[allow(non_snake_case)]
    pub fn NEG_X_NEG_Y() -> (r: VertexDirection)
        ensures
            r.idx() == 4,
    {
        VertexDirection(4)
    }

    /// Vertex towards `Z` (index 4)
    #[allow(non_snake_case)]
    pub fn Z() -> (r: VertexDirection)
        ensures
            r.idx() == 4,
    {
        VertexDirection(4)
    }

    /// "Top Left" vertex in flat orientation (index 4)
    #[allow(non_snake_case)]
    pub fn FLAT_TOP_LEFT() -> (r: VertexDirection)
        ensures
            r.idx() == 4,
    {
        VertexDirection(4)
    }

    /// "North West" vertex in flat orientation (index 4)
    #[allow(non_snake_case)]
    pub fn FLAT_NORTH_WEST() -> (r: VertexDirection)
        ensures
            r.idx() == 4,
    {
        VertexDirection(4)
    }

    /// "Top Left" vertex in pointy orientation (index 4)
    #[allow(non_snake_case)]
    pub fn POINTY_TOP_LEFT() -> (r: VertexDirection)
        ensures
            r.idx() == 4,
    {
        VertexDirection(4)
    }

    /// "North West" vertex in pointy orientation (index 4)
    #[allow(non_snake_case)]
    pub fn POINTY_NORTH_WEST() -> (r: VertexDirection)
        ensures
            r.idx() == 4,
    {
        VertexDirection(4)
    }

    /// Vertex towards `-X, Y, Z` (index 3)
    #[allow(non_snake_case)]
    pub fn NEG_X_Y_Z() -> (r: VertexDirection)
        ensures
            r.idx() == 3,
    {
        VertexDirection(3)
    }

    /// Vertex towards `-X` (index 3)
    #[allow(non_snake_case)]
    pub fn NEG_X() -> (r: VertexDirection)
        ensures
            r.idx() == 3,
    {
        VertexDirection(3)
    }

    /// "Left" vertex in flat orientation (index 3)
    #[allow(non_snake_case)]
    pub fn FLAT_LEFT() -> (r: VertexDirection)
        ensures
            r.idx() == 3,
    {
        VertexDirection(3)
    }

    /// "West" vertex in flat orientation (index 3)
    #[allow(non_snake_case)]
    pub fn FLAT_WEST() -> (r: VertexDirection)
        ensures
            r.idx() == 3,
    {
        VertexDirection(3)
    }

    /// "Bottom Left" vertex in pointy orientation (index 3)
    #[allow(non_snake_case)]
    pub fn POINTY_BOTTOM_LEFT() -> (r: VertexDirection)
        ensures
            r.idx() == 3,
    {
        VertexDirection(3)
    }

    /// "South West" vertex in pointy orientation (index 3)
    #[allow(non_snake_case)]
    pub fn POINTY_SOUTH_WEST() -> (r: VertexDirection)
        ensures
            r.idx() == 3,
    {
        VertexDirection(3)
    }

    /// Vertex towards `-X, Y, -Z` (index 2)
    #[allow(non_snake_case)]
    pub fn NEG_X_Y_NEG_Z() -> (r: VertexDirection)
        ensures
            r.idx() == 2,
    {
        VertexDirection(2)
    }

    /// Vertex towards `Y` (index 2)
    #[allow(non_snake_case)]
    pub fn Y() -> (r: VertexDirection)
        ensures
            r.idx() == 2,
    {
        VertexDirection(2)
    }

    /// "Bottom Left" vertex in flat orientation (index 2)
    #[allow(non_snake_case)]
    pub fn FLAT_BOTTOM_LEFT() -> (r: VertexDirection)
        ensures
            r.idx() == 2,
    {
        VertexDirection(2)
    }

    /// "South West" vertex in flat orientation (index 2)
    #[allow(non_snake_case)]
    pub fn FLAT_SOUTH_WEST() -> (r: VertexDirection)
        ensures
            r.idx() == 2,
    {
        VertexDirection(2)
    }

    /// "Bottom" vertex in pointy orientation (index 2)
    #[allow(non_snake_case)]
    pub fn POINTY_BOTTOM() -> (r: VertexDirection)
        ensures
            r.idx() == 2,
    {
        VertexDirection(2)
    }

    /// "South" vertex in pointy orientation (index 2)
    #[allow(non_snake_case)]
    pub fn POINTY_SOUTH() -> (r: VertexDirection)
        ensures
            r.idx() == 2,
    {
        VertexDirection(2)
    }

    /// Vertex towards `X, Y` (index 1)
    #[allow(non_snake_case)]
    pub fn X_Y() -> (r: VertexDirection)
        ensures
            r.idx() == 1,
    {
        VertexDirection(1)
    }

    /// Vertex towards `-Z` (index 1)
    #[allow(non_snake_case)]
    pub fn NEG_Z() -> (r: VertexDirection)
        ensures
            r.idx() == 1,
    {
        VertexDirection(1)
    }

    /// "Bottom Right" vertex in flat orientation (index 1)
    #[allow(non_snake_case)]
    pub fn FLAT_BOTTOM_RIGHT() -> (r: VertexDirection)
        ensures
            r.idx() == 1,
    {
        VertexDirection(1)
    }

    /// "South East" vertex in flat orientation (index 1)
    #[allow(non_snake_case)]
    pub fn FLAT_SOUTH_EAST() -> (r: VertexDirection)
        ensures
            r.idx() == 1,
    {
        VertexDirection(1)
    }

    /// "Bottom Right" vertex in pointy orientation (index 1)
    #[allow(non_snake_case)]
    pub fn POINTY_BOTTOM_RIGHT() -> (r: VertexDirection)
        ensures
            r.idx() == 1,
    {
        VertexDirection(1)
    }

    /// "South East" vertex in pointy orientation (index 1)
    #[allow(non_snake_case)]
    pub fn POINTY_SOUTH_EAST() -> (r: VertexDirection)
        ensures
            r.idx() == 1,
    {
        VertexDirection(1)
    }

    /// The position of the direction, `0..6`.
    pub closed spec fn idx(self) -> int {
        self.0 as int
    }

    /// The direction at position `i` (taken modulo 6).
    pub closed spec fn from_idx(i: int) -> VertexDirection {
        VertexDirection((i % 6) as u8)
    }

    /// The value is a position in `0..6`.
    #[verifier::type_invariant]
    pub closed spec fn wf(self) -> bool {
        self.0 < 6
    }

    /// Two directions are equal exactly when their positions are; the
    /// direction at a position `i` has position `i % 6`.
    pub proof fn lemma_idx(self, other: Self, i: int)
        ensures
            (self.idx() == other.idx()) == (self == other),
            VertexDirection::from_idx(i).idx() == i % 6,
    {
    }

    /// All 6 directions, in index order
    #[allow(non_snake_case)]
    pub fn ALL_DIRECTIONS() -> (r: [VertexDirection; 6])
        ensures
            forall|i: int| 0 <= i < 6 ==> (#[trigger] r[i]).idx() == i,
    {
        [VertexDirection(0), VertexDirection(1), VertexDirection(2), VertexDirection(3), VertexDirection(4), VertexDirection(5)]
    }

    /// All 6 directions, in index order
    pub fn iter() -> (r: Vec<VertexDirection>)
        ensures
            r.len() == 6,
            forall|i: int| 0 <= i < 6 ==> (#[trigger] r@[i]).idx() == i,
    {
        vec![VertexDirection(0), VertexDirection(1), VertexDirection(2), VertexDirection(3), VertexDirection(4), VertexDirection(5)]
    }

    /// Returns the inner index of the direction, from 0 to 5
    pub fn index(self) -> (r: u8)
        ensures
            r == self.idx(),
            r < 6,
    {
        proof {
            use_type_invariant(self);
        }
        self.0
    }

    /// Converts the direction to its hex coordinate offset
    pub fn into_hex(self) -> (r: Hex)
        ensures
            r.x == vertex_x(self.idx()),
            r.y == vertex_y(self.idx()),
    {
        proof {
            use_type_invariant(self);
        }
        // The table follows `DiagonalDirection` order, which turns the other
        // way round.
        let table = Hex::DIAGONAL_COORDS();
        table[(6 - self.0 as usize) % 6]
    }

    /// Computes the opposite direction of `self`
    pub fn const_neg(self) -> (r: Self)
        ensures
            r.idx() == (self.idx() + 3) % 6,
    {
        proof {
            use_type_invariant(self);
        }
        VertexDirection((self.0 + 3) % 6)
    }

    /// Returns the next direction in clockwise order
    pub fn clockwise(self) -> (r: Self)
        ensures
            r.idx() == (self.idx() + 1) % 6,
    {
        proof {
            use_type_invariant(self);
        }
        VertexDirection((self.0 + 1) % 6)
    }

    /// Returns the next direction in counter clockwise order
    pub fn counter_clockwise(self) -> (r: Self)
        ensures
            r.idx() == (self.idx() + 5) % 6,
    {
        proof {
            use_type_invariant(self);
        }
        VertexDirection((self.0 + 5) % 6)
    }

    /// Rotates `self` counter clockwise by `offset` amount
    pub fn rotate_ccw(self, offset: u8) -> (r: Self)
        ensures
            r.idx() == (self.idx() + 6 - offset % 6) % 6,
    {
        proof {
            use_type_invariant(self);
        }
        VertexDirection((self.0 + 6 - (offset % 6)) % 6)
    }

    /// Rotates `self` clockwise by `offset` amount
    pub fn rotate_cw(self, offset: u8) -> (r: Self)
        ensures
            r.idx() == (self.idx() + offset % 6) % 6,
    {
        proof {
            use_type_invariant(self);
        }
        VertexDirection((self.0 + (offset % 6)) % 6)
    }

    /// Number of clockwise steps from `rhs` to `self`
    fn steps_between(self, rhs: Self) -> (r: u8)
        ensures
            r == (self.idx() + 6 - rhs.idx()) % 6,
    {
        proof {
            use_type_invariant(self);
            use_type_invariant(rhs);
        }
        (self.0 + 6 - rhs.0) % 6
    }

    /// Number of clockwise steps from `rhs` to `self`, `0..6`: the angle
    /// between them in units of 60 degrees
    pub fn steps_to(self, rhs: Self) -> (r: u8)
        ensures
            r == (self.idx() + 6 - rhs.idx()) % 6,
    {
        self.steps_between(rhs)
    }

    /// The edge direction next to `self`, counter clockwise
    pub fn edge_ccw(self) -> (r: EdgeDirection)
        ensures
            r.idx() == (self.idx() + 5) % 6,
    {
        EdgeDirection(self.counter_clockwise().0)
    }

    /// The edge direction next to `self`, counter clockwise (alias of
    /// [`Self::edge_ccw`])
    pub fn direction_ccw(self) -> (r: EdgeDirection)
        ensures
            r.idx() == (self.idx() + 5) % 6,
    {
        self.edge_ccw()
    }

    /// The edge direction next to `self`, clockwise
    pub fn edge_cw(self) -> (r: EdgeDirection)
        ensures
            r.idx() == self.idx(),
    {
        proof {
            use_type_invariant(self);
        }
        EdgeDirection(self.0)
    }

    /// The edge direction next to `self`, clockwise (alias of
    /// [`Self::edge_cw`])
    pub fn direction_cw(self) -> (r: EdgeDirection)
        ensures
            r.idx() == self.idx(),
    {
        self.edge_cw()
    }

    /// The two edge directions around `self`: counter clockwise, then
    /// clockwise
    pub fn edge_directions(self) -> (r: [EdgeDirection; 2])
        ensures
            r[0].idx() == (self.idx() + 5) % 6,
            r[1].idx() == self.idx(),
    {
        [self.edge_ccw(), self.edge_cw()]
    }
}

} // verus!
