//! Vertices and edges of the hexagonal grid, and coordinate swizzles.
use crate::edge_direction::{edge_x, edge_y, EdgeDirection, VertexDirection};
use crate::hex::{fits_i32, Hex};
use vstd::prelude::*;

verus! {

/// An edge of the grid: the side of hexagon `origin` in `direction`.
#[derive(Clone, Copy, Debug, PartialEq, Eq, Hash, Structural)]
pub struct GridEdge {
    /// The coordinate the edge belongs to
    pub origin: Hex,
    /// The side of `origin` the edge lies on
    pub direction: EdgeDirection,
}

/// A vertex of the grid: the corner of hexagon `origin` in `direction`.
#[derive(Clone, Copy, Debug, PartialEq, Eq, Hash, Structural)]
pub struct GridVertex {
    /// The coordinate the vertex belongs to
    pub origin: Hex,
    /// The corner of `origin` the vertex lies on
    pub direction: VertexDirection,
}

/// The neighbors of `origin` on each side of the vertex `d` are representable.
pub open spec fn vertex_fits(origin: Hex, d: VertexDirection) -> bool {
    &&& fits_i32(origin.x + edge_x((d.idx() + 5) % 6))
    &&& fits_i32(origin.y + edge_y((d.idx() + 5) % 6))
    &&& fits_i32(origin.x + edge_x(d.idx()))
    &&& fits_i32(origin.y + edge_y(d.idx()))
}

/// The `t`-th of the three names (`t` in `0..3`) of the vertex `v`: `v`
/// itself, then the same point seen from the neighbor on the clockwise side
/// of the vertex, then from the neighbor on its counter clockwise side.
pub open spec fn vertex_name(v: GridVertex, t: int) -> GridVertex {
    let i = v.direction.idx();
    if t == 0 {
        v
    } else if t == 1 {
        GridVertex {
            origin: Hex { x: (v.origin.x + edge_x(i)) as i32, y: (v.origin.y + edge_y(i)) as i32 },
            direction: VertexDirection::from_idx(i + 4),
        }
    } else {
        GridVertex {
            origin: Hex {
                x: (v.origin.x + edge_x((i + 5) % 6)) as i32,
                y: (v.origin.y + edge_y((i + 5) % 6)) as i32,
            },
            direction: VertexDirection::from_idx(i + 2),
        }
    }
}

/// `a` and `b` name the same point of the grid.
pub open spec fn vertex_equiv(a: GridVertex, b: GridVertex) -> bool {
    exists|t: int| 0 <= t < 3 && b == #[trigger] vertex_name(a, t)
}

/// The origin of `v` is at least two steps away from the borders of the
/// `i32` range, and its direction is valid.
pub open spec fn vertex_far(v: GridVertex) -> bool {
    &&& i32::MIN + 2 < v.origin.x < i32::MAX - 2
    &&& i32::MIN + 2 < v.origin.y < i32::MAX - 2
    &&& 0 <= v.direction.idx() < 6
}

/// Sums of edge offsets around a vertex.
proof fn lemma_edge_sums(i: int)
    requires
        0 <= i < 6,
    ensures
        edge_x(i) + edge_x((i + 4) % 6) == edge_x((i + 5) % 6),
        edge_y(i) + edge_y((i + 4) % 6) == edge_y((i + 5) % 6),
        edge_x(i) + edge_x((i + 3) % 6) == 0,
        edge_y(i) + edge_y((i + 3) % 6) == 0,
        edge_x((i + 5) % 6) + edge_x((i + 2) % 6) == 0,
        edge_y((i + 5) % 6) + edge_y((i + 2) % 6) == 0,
        edge_x((i + 5) % 6) + edge_x((i + 1) % 6) == edge_x(i),
        edge_y((i + 5) % 6) + edge_y((i + 1) % 6) == edge_y(i),
{
}

/// The names of a vertex: the three hexagons around the vertex, each with
/// the direction of the vertex from it.
proof fn lemma_vertex_names(v: GridVertex)
    requires
        vertex_far(v),
    ensures
        vertex_name(v, 1).origin.x == v.origin.x + edge_x(v.direction.idx()),
        vertex_name(v, 1).origin.y == v.origin.y + edge_y(v.direction.idx()),
        vertex_name(v, 1).direction.idx() == (v.direction.idx() + 4) % 6,
        vertex_name(v, 2).origin.x == v.origin.x + edge_x((v.direction.idx() + 5) % 6),
        vertex_name(v, 2).origin.y == v.origin.y + edge_y((v.direction.idx() + 5) % 6),
        vertex_name(v, 2).direction.idx() == (v.direction.idx() + 2) % 6,
{
    let i = v.direction.idx();
    v.direction.lemma_idx(v.direction, i + 4);
    v.direction.lemma_idx(v.direction, i + 2);
}

/// Naming the same grid point is an equivalence between vertices whose
/// classes have exactly three members: the three names of the vertex, which
/// are different and whose origins are neighbors of each other.
pub proof fn lemma_vertex_classes(a: GridVertex, b: GridVertex, c: GridVertex)
    requires
        vertex_far(a),
    ensures
        vertex_equiv(a, a),
        vertex_equiv(a, b) ==> vertex_equiv(b, a),
        vertex_equiv(a, b) && vertex_equiv(b, c) ==> vertex_equiv(a, c),
        vertex_name(a, 0) != vertex_name(a, 1),
        vertex_name(a, 0) != vertex_name(a, 2),
        vertex_name(a, 1) != vertex_name(a, 2),
        vertex_name(a, 0).origin.dist(vertex_name(a, 1).origin) == 1,
        vertex_name(a, 0).origin.dist(vertex_name(a, 2).origin) == 1,
        vertex_name(a, 1).origin.dist(vertex_name(a, 2).origin) == 1,
{
    let i = a.direction.idx();
    lemma_vertex_names(a);
    lemma_edge_sums(i);
    assert(((i + 4) % 6 + 5) % 6 == (i + 3) % 6);
    assert(((i + 4) % 6 + 4) % 6 == (i + 2) % 6);
    assert(((i + 2) % 6 + 5) % 6 == (i + 1) % 6);
    assert(((i + 2) % 6 + 4) % 6 == i);
    let a1 = vertex_name(a, 1);
    let a2 = vertex_name(a, 2);
    assert(vertex_name(a, 0) == a);
    assert(vertex_far(a1) || !vertex_far(a1));
    assert(i32::MIN + 1 < a1.origin.x < i32::MAX - 1 && i32::MIN + 1 < a1.origin.y < i32::MAX - 1);
    assert(i32::MIN + 1 < a2.origin.x < i32::MAX - 1 && i32::MIN + 1 < a2.origin.y < i32::MAX - 1);
    // the names of the other names are the names of `a`
    let j1 = a1.direction.idx();
    let j2 = a2.direction.idx();
    a1.direction.lemma_idx(a1.direction, j1 + 4);
    a1.direction.lemma_idx(a1.direction, j1 + 2);
    a2.direction.lemma_idx(a2.direction, j2 + 4);
    a2.direction.lemma_idx(a2.direction, j2 + 2);
    a.direction.lemma_idx(a1.direction, 0);
    a.direction.lemma_idx(a2.direction, 0);
    a1.direction.lemma_idx(a2.direction, 0);
    vertex_name(a1, 1).direction.lemma_idx(a2.direction, 0);
    vertex_name(a1, 2).direction.lemma_idx(a.direction, 0);
    vertex_name(a2, 1).direction.lemma_idx(a.direction, 0);
    vertex_name(a2, 2).direction.lemma_idx(a1.direction, 0);
    assert(vertex_name(a1, 1) == a2);
    assert(vertex_name(a1, 2) == a);
    assert(vertex_name(a2, 1) == a);
    assert(vertex_name(a2, 2) == a1);
    assert(vertex_name(a1, 0) == a1 && vertex_name(a2, 0) == a2);
    assert(vertex_equiv(a, a));
    if vertex_equiv(a, b) {
        let t = choose|t: int| 0 <= t < 3 && b == #[trigger] vertex_name(a, t);
        if t == 1 {
            assert(a == vertex_name(b, 2));
        } else if t == 2 {
            assert(a == vertex_name(b, 1));
        } else {
            assert(a == vertex_name(b, 0));
        }
        if vertex_equiv(b, c) {
            let u = choose|u: int| 0 <= u < 3 && c == #[trigger] vertex_name(b, u);
            if t == 0 {
                assert(c == vertex_name(a, u));
            } else if t == 1 {
                if u == 0 {
                    assert(c == vertex_name(a, 1));
                } else if u == 1 {
                    assert(c == vertex_name(a, 2));
                } else {
                    assert(c == vertex_name(a, 0));
                }
            } else {
                if u == 0 {
                    assert(c == vertex_name(a, 2));
                } else if u == 1 {
                    assert(c == vertex_name(a, 0));
                } else {
                    assert(c == vertex_name(a, 1));
                }
            }
        }
    }
}

impl GridVertex {
    /// Checks if `self` and `other` are the same vertex of the grid: each
    /// vertex is shared by three hexagons, and so has three names.
    pub fn equivalent(&self, other: &Self) -> (r: bool)
        requires
            vertex_fits(self.origin, self.direction),
        ensures
            r == ((self.origin == other.origin && self.direction.idx() == other.direction.idx()) || (other.origin.x
                == self.origin.x + edge_x(self.direction.idx()) && other.origin.y == self.origin.y
                + edge_y(self.direction.idx()) && other.direction.idx() == (self.direction.idx() + 4) % 6) || (
            other.origin.x == self.origin.x + edge_x((self.direction.idx() + 5) % 6) && other.origin.y
                == self.origin.y + edge_y((self.direction.idx() + 5) % 6) && other.direction.idx() == (
            self.direction.idx() + 2) % 6)),
            r == vertex_equiv(*self, *other),
    {
        proof {
            use_type_invariant(self.direction);
            self.direction.lemma_idx(other.direction, 0);
            let i = self.direction.idx();
            let n1 = vertex_name(*self, 1);
            let n2 = vertex_name(*self, 2);
            self.direction.lemma_idx(self.direction, i + 4);
            self.direction.lemma_idx(self.direction, i + 2);
            n1.direction.lemma_idx(other.direction, 0);
            n2.direction.lemma_idx(other.direction, 0);
            assert(vertex_name(*self, 0) == *self);
        }
        let cw_origin = self.origin + self.direction.direction_cw();
        let cw_direction = self.direction.rotate_ccw(2);
        let ccw_origin = self.origin + self.direction.direction_ccw();
        let ccw_direction = self.direction.rotate_cw(2);
        proof {
            cw_direction.lemma_idx(other.direction, 0);
            ccw_direction.lemma_idx(other.direction, 0);
        }
        (self.origin == other.origin && self.direction == other.direction) || (cw_origin == other.origin
            && cw_direction == other.direction) || (ccw_origin == other.origin && ccw_direction
            == other.direction)
    }

    /// The three hexagons sharing the vertex: `origin`, then its neighbors
    /// on the counter clockwise and on the clockwise side of the vertex.
    pub fn coordinates(&self) -> (r: [Hex; 3])
        requires
            vertex_fits(self.origin, self.direction),
        ensures
            r[0] == self.origin,
            r[1].x == self.origin.x + edge_x((self.direction.idx() + 5) % 6),
            r[1].y == self.origin.y + edge_y((self.direction.idx() + 5) % 6),
            r[2].x == self.origin.x + edge_x(self.direction.idx()),
            r[2].y == self.origin.y + edge_y(self.direction.idx()),
    {
        [
            self.origin,
            self.origin + self.direction.direction_ccw(),
            self.origin + self.direction.direction_cw(),
        ]
    }

    /// The two other hexagons sharing the vertex: the neighbors of `origin`
    /// on the counter clockwise and on the clockwise side of the vertex.
    pub fn destinations(&self) -> (r: [Hex; 2])
        requires
            vertex_fits(self.origin, self.direction),
        ensures
            r[0].x == self.origin.x + edge_x((self.direction.idx() + 5) % 6),
            r[0].y == self.origin.y + edge_y((self.direction.idx() + 5) % 6),
            r[1].x == self.origin.x + edge_x(self.direction.idx()),
            r[1].y == self.origin.y + edge_y(self.direction.idx()),
    {
        [self.origin + self.direction.direction_ccw(), self.origin + self.direction.direction_cw()]
    }

    /// The two edges of `origin` meeting at the vertex: counter clockwise,
    /// then clockwise.
    pub fn side_edges(&self) -> (r: [GridEdge; 2])
        ensures
            r[0].origin == self.origin,
            r[0].direction.idx() == (self.direction.idx() + 5) % 6,
            r[1].origin == self.origin,
            r[1].direction.idx() == self.direction.idx(),
    {
        [
            GridEdge { origin: self.origin, direction: self.direction.direction_ccw() },
            GridEdge { origin: self.origin, direction: self.direction.direction_cw() },
        ]
    }

    /// The opposite vertex of the same hexagon
    pub fn const_neg(self) -> (r: Self)
        ensures
            r.origin == self.origin,
            r.direction.idx() == (self.direction.idx() + 3) % 6,
    {
        GridVertex { origin: self.origin, direction: self.direction.const_neg() }
    }

    /// The next vertex of the same hexagon, clockwise
    pub fn clockwise(self) -> (r: Self)
        ensures
            r.origin == self.origin,
            r.direction.idx() == (self.direction.idx() + 1) % 6,
    {
        GridVertex { origin: self.origin, direction: self.direction.clockwise() }
    }

    /// The next vertex of the same hexagon, counter clockwise
    pub fn counter_clockwise(self) -> (r: Self)
        ensures
            r.origin == self.origin,
            r.direction.idx() == (self.direction.idx() + 5) % 6,
    {
        GridVertex { origin: self.origin, direction: self.direction.counter_clockwise() }
    }

    /// The vertex of the same hexagon `offset` steps clockwise
    pub fn rotate_cw(self, offset: u8) -> (r: Self)
        ensures
            r.origin == self.origin,
            r.direction.idx() == (self.direction.idx() + offset % 6) % 6,
    {
        GridVertex { origin: self.origin, direction: self.direction.rotate_cw(offset) }
    }

    /// The vertex of the same hexagon `offset` steps counter clockwise
    pub fn rotate_ccw(self, offset: u8) -> (r: Self)
        ensures
            r.origin == self.origin,
            r.direction.idx() == (self.direction.idx() + 6 - offset % 6) % 6,
    {
        GridVertex { origin: self.origin, direction: self.direction.rotate_ccw(offset) }
    }
}

impl std::ops::Neg for GridVertex {
    type Output = GridVertex;

    fn neg(self) -> GridVertex {
        let r = self.const_neg();
        proof {
            r.direction.lemma_idx(VertexDirection::from_idx(self.direction.idx() + 3), self.direction.idx() + 3);
        }
        r
    }
}

impl vstd::std_specs::ops::NegSpecImpl for GridVertex {
    open spec fn obeys_neg_spec() -> bool {
        true
    }

    open spec fn neg_req(self) -> bool {
        true
    }

    open spec fn neg_spec(self) -> GridVertex {
        GridVertex { origin: self.origin, direction: VertexDirection::from_idx(self.direction.idx() + 3) }
    }
}

impl std::convert::From<VertexDirection> for GridVertex {
    fn from(direction: VertexDirection) -> GridVertex {
        GridVertex { origin: Hex { x: 0, y: 0 }, direction }
    }
}

impl vstd::std_specs::convert::FromSpecImpl<VertexDirection> for GridVertex {
    open spec fn obeys_from_spec() -> bool {
        true
    }

    open spec fn from_spec(v: VertexDirection) -> GridVertex {
        GridVertex { origin: Hex { x: 0, y: 0 }, direction: v }
    }
}

/// The cubic `z` coordinate of `h`, when representable.
fn cubic_z(h: Hex) -> (r: i32)
    requires
        fits_i32(h.zi()),
    ensures
        r == h.zi(),
{
    (-(h.x as i64) - h.y as i64) as i32
}

impl Hex {
    /// The 6 vertices of `self`, in [`VertexDirection`] order
    pub fn all_vertices(self) -> (r: [GridVertex; 6])
        ensures
            forall|i: int| 0 <= i < 6 ==> (#[trigger] r[i]).origin == self && r[i].direction.idx() == i,
    {
        let dirs = VertexDirection::ALL_DIRECTIONS();
        [
            GridVertex { origin: self, direction: dirs[0] },
            GridVertex { origin: self, direction: dirs[1] },
            GridVertex { origin: self, direction: dirs[2] },
            GridVertex { origin: self, direction: dirs[3] },
            GridVertex { origin: self, direction: dirs[4] },
            GridVertex { origin: self, direction: dirs[5] },
        ]
    }

    /// `(x, x)`
    pub fn xx(self) -> (r: Self)
        ensures
            r == (Hex { x: self.x, y: self.x }),
    {
        Hex { x: self.x, y: self.x }
    }

    /// `(y, y)`
    pub fn yy(self) -> (r: Self)
        ensures
            r == (Hex { x: self.y, y: self.y }),
    {
        Hex { x: self.y, y: self.y }
    }

    /// `(z, z)`
    pub fn zz(self) -> (r: Self)
        requires
            fits_i32(self.zi()),
        ensures
            r.x == self.zi() && r.y == self.zi(),
    {
        let z = cubic_z(self);
        Hex { x: z, y: z }
    }

    /// `(y, x)`
    pub fn yx(self) -> (r: Self)
        ensures
            r == (Hex { x: self.y, y: self.x }),
    {
        Hex { x: self.y, y: self.x }
    }

    /// `(y, z)`
    pub fn yz(self) -> (r: Self)
        requires
            fits_i32(self.zi()),
        ensures
            r.x == self.y && r.y == self.zi(),
    {
        Hex { x: self.y, y: cubic_z(self) }
    }

    /// `(x, z)`
    pub fn xz(self) -> (r: Self)
        requires
            fits_i32(self.zi()),
        ensures
            r.x == self.x && r.y == self.zi(),
    {
        Hex { x: self.x, y: cubic_z(self) }
    }

    /// `(z, x)`
    pub fn zx(self) -> (r: Self)
        requires
            fits_i32(self.zi()),
        ensures
            r.x == self.zi() && r.y == self.x,
    {
        Hex { x: cubic_z(self), y: self.x }
    }

    /// `(z, y)`
    pub fn zy(self) -> (r: Self)
        requires
            fits_i32(self.zi()),
        ensures
            r.x == self.zi() && r.y == self.y,
    {
        Hex { x: cubic_z(self), y: self.y }
    }

    /// Squared euclidean length of `self`, in units of the distance between
    /// two neighbor centers: `x^2 + y^2 + x * y`.
    pub fn squared_euclidean_length(self) -> (r: i32)
        requires
            fits_i32(self.x * self.x + self.y * self.y + self.x * self.y),
        ensures
            r == self.x * self.x + self.y * self.y + self.x * self.y,
    {
        let x = self.x as i64;
        let y = self.y as i64;
        assert(0 <= x * x <= 0x4000_0000_0000_0000 && 0 <= y * y <= 0x4000_0000_0000_0000 && -0x4000_0000_0000_0000
            <= x * y <= 0x4000_0000_0000_0000) by (nonlinear_arith)
            requires
                -0x8000_0000 <= x <= 0x7fff_ffff,
                -0x8000_0000 <= y <= 0x7fff_ffff,
        ;
        let s = x * x + y * y;
        (s + x * y) as i32
    }

    /// Squared euclidean distance from `self` to `rhs`, in units of the
    /// distance between two neighbor centers.
    pub fn squared_euclidean_distance_to(self, rhs: Self) -> (r: i32)
        requires
            rhs.sub_fits(self),
            ({
                let (dx, dy) = (rhs.x - self.x, rhs.y - self.y);
                fits_i32(dx * dx + dy * dy + dx * dy)
            }),
        ensures
            ({
                let (dx, dy) = (rhs.x - self.x, rhs.y - self.y);
                r == dx * dx + dy * dy + dx * dy
            }),
    {
        rhs.const_sub(self).squared_euclidean_length()
    }
}

} // verus!
