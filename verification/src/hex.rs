//! Axial hexagonal coordinates.
use crate::direction::{DiagonalDirection, Direction};
use crate::way::{way_from_spec, DirectionWay, Way};
use vstd::prelude::*;

verus! {

/// Whether the mathematical integer `v` fits in an `i32`.
pub open spec fn fits_i32(v: int) -> bool {
    i32::MIN <= v <= i32::MAX
}

/// Absolute value of an integer.
pub open spec fn iabs(v: int) -> int {
    if v < 0 {
        -v
    } else {
        v
    }
}

/// Maximum of three integers.
pub open spec fn imax3(a: int, b: int, c: int) -> int {
    if a >= b && a >= c {
        a
    } else if b >= a && b >= c {
        b
    } else {
        c
    }
}

/// Hexagonal length of the axial vector `(x, y)`: the number of neighbor steps
/// from the origin, which is the largest absolute cubic coordinate.
pub open spec fn hex_norm(x: int, y: int) -> int {
    imax3(iabs(x), iabs(y), iabs(x + y))
}

/// The diagonal wedge containing the vector `(x, y)` (cubic `z = -x - y`):
/// the diagonal of its largest absolute cubic coordinate, or a tie when two of
/// them are equally large.
pub open spec fn diagonal_way_spec(x: int, y: int) -> DirectionWay<DiagonalDirection> {
    let z = -x - y;
    let (xa, ya, za) = (iabs(x), iabs(y), iabs(z));
    let m = imax3(xa, ya, za);
    if m == xa {
        way_from_spec(x < 0, xa == ya, xa == za, DiagonalDirection::Right)
    } else if m == ya {
        way_from_spec(y < 0, ya == za, ya == xa, DiagonalDirection::BottomLeft)
    } else {
        way_from_spec(z < 0, za == xa, za == ya, DiagonalDirection::TopLeft)
    }
}

/// The neighbor direction wedge containing the vector `(x, y)` (cubic
/// `z = -x - y`), computed from the cubic differences `y - x`, `z - y` and
/// `x - z`.
pub open spec fn way_spec(x: int, y: int) -> DirectionWay<Direction> {
    let z = -x - y;
    let (a, b, c) = (y - x, z - y, x - z);
    let (aa, ba, ca) = (iabs(a), iabs(b), iabs(c));
    let m = imax3(aa, ba, ca);
    if m == aa {
        way_from_spec(a < 0, aa == ba, aa == ca, Direction::BottomLeft)
    } else if m == ba {
        way_from_spec(b < 0, ba == ca, ba == aa, Direction::Top)
    } else {
        way_from_spec(c < 0, ca == aa, ca == ba, Direction::BottomRight)
    }
}

/// The vector `(x, y)` lets every step of the wedge computation stay in `i32`:
/// its cubic coordinates, their pairwise differences, and all their absolute
/// values are representable.
pub open spec fn way_args_fit(x: int, y: int) -> bool {
    let z = -x - y;
    &&& -i32::MAX <= x <= i32::MAX
    &&& -i32::MAX <= y <= i32::MAX
    &&& -i32::MAX <= z <= i32::MAX
    &&& -i32::MAX <= y - x <= i32::MAX
    &&& -i32::MAX <= z - y <= i32::MAX
    &&& -i32::MAX <= x - z <= i32::MAX
}

/// Coordinates of the neighbor offset at position `i` (in [`Direction`] order).
pub open spec fn neighbor_x(i: int) -> int {
    if i == 0 {
        1
    } else if i == 1 {
        0
    } else if i == 2 {
        -1
    } else if i == 3 {
        -1
    } else if i == 4 {
        0
    } else {
        1
    }
}

/// See [`neighbor_x`].
pub open spec fn neighbor_y(i: int) -> int {
    if i == 0 {
        -1
    } else if i == 1 {
        -1
    } else if i == 2 {
        0
    } else if i == 3 {
        1
    } else if i == 4 {
        1
    } else {
        0
    }
}

/// Coordinates of the diagonal offset at position `i` (in
/// [`DiagonalDirection`] order).
pub open spec fn diagonal_x(i: int) -> int {
    if i == 0 {
        2
    } else if i == 1 {
        1
    } else if i == 2 {
        -1
    } else if i == 3 {
        -2
    } else if i == 4 {
        -1
    } else {
        1
    }
}

/// See [`diagonal_x`].
pub open spec fn diagonal_y(i: int) -> int {
    if i == 0 {
        -1
    } else if i == 1 {
        -2
    } else if i == 2 {
        -1
    } else if i == 3 {
        1
    } else if i == 4 {
        2
    } else {
        1
    }
}

/// Exact hexagonal length, computed without overflow.
pub(crate) fn wide_length(h: Hex) -> (r: i64)
    ensures
        r == h.norm(),
{
    let x = h.x as i64;
    let y = h.y as i64;
    let z = -x - y;
    let xa = if x < 0 {
        -x
    } else {
        x
    };
    let ya = if y < 0 {
        -y
    } else {
        y
    };
    let za = if z < 0 {
        -z
    } else {
        z
    };
    if xa >= ya && xa >= za {
        xa
    } else if ya >= xa && ya >= za {
        ya
    } else {
        za
    }
}

/// Exact distance between two coordinates, computed without overflow.
pub(crate) fn wide_distance(a: Hex, b: Hex) -> (r: i64)
    ensures
        r == a.dist(b),
{
    let dx = a.x as i64 - b.x as i64;
    let dy = a.y as i64 - b.y as i64;
    wide_length_of(dx, dy)
}

/// Exact hexagonal length of the vector `(x, y)` of `i64` values that come
/// from differences of `i32` values.
pub(crate) fn wide_length_of(x: i64, y: i64) -> (r: i64)
    requires
        -0x1_0000_0000 <= x <= 0x1_0000_0000,
        -0x1_0000_0000 <= y <= 0x1_0000_0000,
    ensures
        r == hex_norm(x as int, y as int),
{
    let z = -x - y;
    let xa = if x < 0 {
        -x
    } else {
        x
    };
    let ya = if y < 0 {
        -y
    } else {
        y
    };
    let za = if z < 0 {
        -z
    } else {
        z
    };
    if xa >= ya && xa >= za {
        xa
    } else if ya >= xa && ya >= za {
        ya
    } else {
        za
    }
}

/// Hexagonal axial coordinates. The third cubic coordinate is `z = -x - y`.
#[derive(Clone, Copy, Debug, Default, PartialEq, Eq, Hash, Structural)]
pub struct Hex {
    /// `x` axial coordinate (sometimes called `q`)
    pub x: i32,
    /// `y` axial coordinate (sometimes called `r`)
    pub y: i32,
}

/// Instantiates a new hexagon from axial coordinates
pub fn hex(x: i32, y: i32) -> (r: Hex)
    ensures
        r == (Hex { x, y }),
{
    Hex::new(x, y)
}

impl Hex {
    /// The cubic `z` coordinate, `-x - y`.
    pub open spec fn zi(self) -> int {
        -self.x - self.y
    }

    /// Hexagonal length of `self`.
    pub open spec fn norm(self) -> int {
        hex_norm(self.x as int, self.y as int)
    }

    /// Hexagonal distance between `self` and `other`.
    pub open spec fn dist(self, other: Hex) -> int {
        hex_norm(self.x - other.x, self.y - other.y)
    }

    /// All three cubic coordinates lie in `-i32::MAX ..= i32::MAX`, so that
    /// they and their negations are representable.
    pub open spec fn in_cubic_range(self) -> bool {
        &&& self.x > i32::MIN
        &&& self.y > i32::MIN
        &&& -i32::MAX <= self.zi() <= i32::MAX
    }

    /// The coordinate-wise sum `self + other` is representable.
    pub open spec fn add_fits(self, other: Hex) -> bool {
        fits_i32(self.x + other.x) && fits_i32(self.y + other.y)
    }

    /// The coordinate-wise difference `self - other` is representable.
    pub open spec fn sub_fits(self, other: Hex) -> bool {
        fits_i32(self.x - other.x) && fits_i32(self.y - other.y)
    }

    /// Coordinate-wise sum.
    pub open spec fn plus(self, other: Hex) -> Hex {
        Hex { x: (self.x + other.x) as i32, y: (self.y + other.y) as i32 }
    }

    /// Coordinate-wise difference.
    pub open spec fn minus(self, other: Hex) -> Hex {
        Hex { x: (self.x - other.x) as i32, y: (self.y - other.y) as i32 }
    }

    /// Rotation by 60 degrees clockwise around the origin.
    pub open spec fn cw1(self) -> Hex {
        Hex { x: (-self.y) as i32, y: (self.x + self.y) as i32 }
    }

    /// Rotation by 60 degrees counter clockwise around the origin.
    pub open spec fn ccw1(self) -> Hex {
        Hex { x: (self.x + self.y) as i32, y: (-self.x) as i32 }
    }

    /// `n` successive clockwise rotations.
    pub open spec fn cw_n(self, n: nat) -> Hex
        decreases n,
    {
        if n == 0 {
            self
        } else {
            self.cw1().cw_n((n - 1) as nat)
        }
    }

    /// `n` successive counter clockwise rotations.
    pub open spec fn ccw_n(self, n: nat) -> Hex
        decreases n,
    {
        if n == 0 {
            self
        } else {
            self.ccw1().ccw_n((n - 1) as nat)
        }
    }

    /// (0, 0)
    #[allow(non_snake_case)]
    pub fn ORIGIN() -> (r: Hex)
        ensures
            r == (Hex { x: 0i32, y: 0i32 }),
    {
        Hex { x: 0, y: 0 }
    }

    /// (0, 0)
    #[allow(non_snake_case)]
    pub fn ZERO() -> (r: Hex)
        ensures
            r == (Hex { x: 0i32, y: 0i32 }),
    {
        Hex { x: 0, y: 0 }
    }

    /// (1, 1)
    #[allow(non_snake_case)]
    pub fn ONE() -> (r: Hex)
        ensures
            r == (Hex { x: 1i32, y: 1i32 }),
    {
        Hex { x: 1, y: 1 }
    }

    /// (-1, -1)
    #[allow(non_snake_case)]
    pub fn NEG_ONE() -> (r: Hex)
        ensures
            r == (Hex { x: -1i32, y: -1i32 }),
    {
        Hex { x: -1, y: -1 }
    }

    /// X (Q) axis (1, 0)
    #[allow(non_snake_case)]
    pub fn X() -> (r: Hex)
        ensures
            r == (Hex { x: 1i32, y: 0i32 }),
    {
        Hex { x: 1, y: 0 }
    }

    /// -X (-Q) axis (-1, 0)
    #[allow(non_snake_case)]
    pub fn NEG_X() -> (r: Hex)
        ensures
            r == (Hex { x: -1i32, y: 0i32 }),
    {
        Hex { x: -1, y: 0 }
    }

    /// Y (R) axis (0, 1)
    #[allow(non_snake_case)]
    pub fn Y() -> (r: Hex)
        ensures
            r == (Hex { x: 0i32, y: 1i32 }),
    {
        Hex { x: 0, y: 1 }
    }

    /// -Y (-R) axis (0, -1)
    #[allow(non_snake_case)]
    pub fn NEG_Y() -> (r: Hex)
        ensures
            r == (Hex { x: 0i32, y: -1i32 }),
    {
        Hex { x: 0, y: -1 }
    }

    /// Cubic Z (S) axis (0, -1), whose cubic `z` is 1
    #[allow(non_snake_case)]
    pub fn Z() -> (r: Hex)
        ensures
            r == (Hex { x: 0i32, y: -1i32 }),
    {
        Hex { x: 0, y: -1 }
    }

    /// Cubic -Z (S) axis (0, 1), whose cubic `z` is -1
    #[allow(non_snake_case)]
    pub fn NEG_Z() -> (r: Hex)
        ensures
            r == (Hex { x: 0i32, y: 1i32 }),
    {
        Hex { x: 0, y: 1 }
    }

    /// Neighbor offsets, in [`Direction`] order
    #[allow(non_snake_case)]
    pub fn NEIGHBORS_COORDS() -> (r: [Hex; 6])
        ensures
            forall|i: int| 0 <= i < 6 ==> (#[trigger] r[i]).x == neighbor_x(i) && r[i].y == neighbor_y(i),
    {
        [
            Hex { x: 1, y: -1 },
            Hex { x: 0, y: -1 },
            Hex { x: -1, y: 0 },
            Hex { x: -1, y: 1 },
            Hex { x: 0, y: 1 },
            Hex { x: 1, y: 0 },
        ]
    }

    /// Diagonal offsets, in [`DiagonalDirection`] order
    #[allow(non_snake_case)]
    pub fn DIAGONAL_COORDS() -> (r: [Hex; 6])
        ensures
            forall|i: int| 0 <= i < 6 ==> (#[trigger] r[i]).x == diagonal_x(i) && r[i].y == diagonal_y(i),
    {
        [
            Hex { x: 2, y: -1 },
            Hex { x: 1, y: -2 },
            Hex { x: -1, y: -1 },
            Hex { x: -2, y: 1 },
            Hex { x: -1, y: 2 },
            Hex { x: 1, y: 1 },
        ]
    }

    /// Instantiates a new hexagon from axial coordinates
    pub fn new(x: i32, y: i32) -> (r: Self)
        ensures
            r.x == x,
            r.y == y,
    {
        Hex { x, y }
    }

    /// Instantiates a new hexagon with all axial coordinates set to `v`
    pub fn splat(v: i32) -> (r: Self)
        ensures
            r.x == v,
            r.y == v,
    {
        Hex { x: v, y: v }
    }

    /// Instantiates new hexagonal coordinates from cubic coordinates, whose sum
    /// must be zero.
    pub fn new_cubic(x: i32, y: i32, z: i32) -> (r: Self)
        requires
            x + y + z == 0,
        ensures
            r.x == x,
            r.y == y,
            r.zi() == z,
    {
        Hex { x, y }
    }

    /// `x` coordinate (sometimes called `q`)
    pub fn x(self) -> (r: i32)
        ensures
            r == self.x,
    {
        self.x
    }

    /// `y` coordinate (sometimes called `r`)
    pub fn y(self) -> (r: i32)
        ensures
            r == self.y,
    {
        self.y
    }

    /// `z` cubic coordinate (sometimes called `s`), computed as `-x - y`
    pub fn z(self) -> (r: i32)
        requires
            self.x > i32::MIN,
            fits_i32(self.zi()),
        ensures
            r == self.zi(),
    {
        -self.x - self.y
    }

    /// Creates a [`Hex`] from an `[x, y]` array
    pub fn from_array(a: [i32; 2]) -> (r: Self)
        ensures
            r.x == a[0],
            r.y == a[1],
    {
        Hex { x: a[0], y: a[1] }
    }

    /// Converts `self` to an array as `[x, y]`
    pub fn to_array(self) -> (r: [i32; 2])
        ensures
            r[0] == self.x,
            r[1] == self.y,
    {
        [self.x, self.y]
    }

    /// Converts `self` to a cubic coordinates array as `[x, y, z]`
    pub fn to_cubic_array(self) -> (r: [i32; 3])
        requires
            self.x > i32::MIN,
            fits_i32(self.zi()),
        ensures
            r[0] == self.x,
            r[1] == self.y,
            r[2] == self.zi(),
    {
        [self.x, self.y, self.z()]
    }

    /// Creates a [`Hex`] from the first 2 values of `slice`
    pub fn from_slice(slice: &[i32]) -> (r: Self)
        requires
            slice@.len() >= 2,
        ensures
            r.x == slice@[0],
            r.y == slice@[1],
    {
        Hex { x: slice[0], y: slice[1] }
    }

    /// Writes the coordinates of `self` to the first 2 elements of `slice`
    pub fn write_to_slice(self, slice: &mut [i32])
        requires
            old(slice)@.len() >= 2,
        ensures
            final(slice)@ == old(slice)@.update(0, self.x).update(1, self.y),
    {
        slice[0] = self.x;
        slice[1] = self.y;
    }

    /// Negates the coordinate, giving its reflection around the origin
    pub fn const_neg(self) -> (r: Self)
        requires
            self.x > i32::MIN,
            self.y > i32::MIN,
        ensures
            r.x == -self.x,
            r.y == -self.y,
    {
        Hex { x: -self.x, y: -self.y }
    }

    /// Adds `self` and `other` coordinate-wise
    pub fn const_add(self, other: Self) -> (r: Self)
        requires
            self.add_fits(other),
        ensures
            r.x == self.x + other.x,
            r.y == self.y + other.y,
    {
        Hex { x: self.x + other.x, y: self.y + other.y }
    }

    /// Subtracts `rhs` from `self` coordinate-wise
    pub fn const_sub(self, rhs: Self) -> (r: Self)
        requires
            self.sub_fits(rhs),
        ensures
            r.x == self.x - rhs.x,
            r.y == self.y - rhs.y,
    {
        Hex { x: self.x - rhs.x, y: self.y - rhs.y }
    }

    /// Computes the coordinate-wise absolute value of `self`
    pub fn abs(self) -> (r: Self)
        requires
            self.x > i32::MIN,
            self.y > i32::MIN,
        ensures
            r.x == iabs(self.x as int),
            r.y == iabs(self.y as int),
    {
        Hex {
            x: if self.x < 0 { -self.x } else { self.x },
            y: if self.y < 0 { -self.y } else { self.y },
        }
    }

    /// Coordinate-wise minimum of `self` and `rhs`
    pub fn min(self, rhs: Self) -> (r: Self)
        ensures
            r.x == (if self.x <= rhs.x { self.x } else { rhs.x }),
            r.y == (if self.y <= rhs.y { self.y } else { rhs.y }),
    {
        Hex {
            x: if self.x <= rhs.x { self.x } else { rhs.x },
            y: if self.y <= rhs.y { self.y } else { rhs.y },
        }
    }

    /// Coordinate-wise maximum of `self` and `rhs`
    pub fn max(self, rhs: Self) -> (r: Self)
        ensures
            r.x == (if self.x >= rhs.x { self.x } else { rhs.x }),
            r.y == (if self.y >= rhs.y { self.y } else { rhs.y }),
    {
        Hex {
            x: if self.x >= rhs.x { self.x } else { rhs.x },
            y: if self.y >= rhs.y { self.y } else { rhs.y },
        }
    }

    /// Computes the dot product of `self` and `rhs`
    pub fn dot(self, rhs: Self) -> (r: i32)
        requires
            fits_i32(self.x * rhs.x),
            fits_i32(self.y * rhs.y),
            fits_i32(self.x * rhs.x + self.y * rhs.y),
        ensures
            r == self.x * rhs.x + self.y * rhs.y,
    {
        (self.x * rhs.x) + (self.y * rhs.y)
    }

    /// Coordinate-wise sign of `self`: `-1`, `0` or `1`
    pub fn signum(self) -> (r: Self)
        ensures
            r.x == (if self.x > 0 { 1int } else if self.x < 0 { -1int } else { 0int }),
            r.y == (if self.y > 0 { 1int } else if self.y < 0 { -1int } else { 0int }),
    {
        Hex {
            x: if self.x > 0 { 1 } else if self.x < 0 { -1 } else { 0 },
            y: if self.y > 0 { 1 } else if self.y < 0 { -1 } else { 0 },
        }
    }

    /// Computes the hexagonal length of `self`, its distance to the origin, as
    /// a signed integer
    pub fn length(self) -> (r: i32)
        requires
            self.in_cubic_range(),
        ensures
            r == self.norm(),
    {
        let z = self.z();
        let x = if self.x < 0 { -self.x } else { self.x };
        let y = if self.y < 0 { -self.y } else { self.y };
        let z = if z < 0 { -z } else { z };
        if x >= y && x >= z {
            x
        } else if y >= x && y >= z {
            y
        } else {
            z
        }
    }

    /// Computes the hexagonal length of `self`, its distance to the origin, as
    /// an unsigned integer
    pub fn ulength(self) -> (r: u32)
        requires
            self.x > i32::MIN,
            fits_i32(self.zi()),
        ensures
            r == self.norm(),
    {
        let z = self.z();
        let x = iabs_u32(self.x);
        let y = iabs_u32(self.y);
        let z = iabs_u32(z);
        if x >= y && x >= z {
            x
        } else if y >= x && y >= z {
            y
        } else {
            z
        }
    }

    /// Computes the hexagonal distance from `self` to `rhs` as a signed integer
    pub fn distance_to(self, rhs: Self) -> (r: i32)
        requires
            self.sub_fits(rhs),
            self.minus(rhs).in_cubic_range(),
        ensures
            r == self.dist(rhs),
    {
        self.const_sub(rhs).length()
    }

    /// Computes the hexagonal distance from `self` to `rhs` as an unsigned
    /// integer
    pub fn unsigned_distance_to(self, rhs: Self) -> (r: u32)
        requires
            self.sub_fits(rhs),
            self.x - rhs.x > i32::MIN,
            fits_i32(-(self.x - rhs.x) - (self.y - rhs.y)),
        ensures
            r == self.dist(rhs),
    {
        self.const_sub(rhs).ulength()
    }

    /// Retrieves the neighbor offset matching the given `direction`
    pub fn neighbor_coord(direction: Direction) -> (r: Hex)
        ensures
            r.x == neighbor_x(direction.idx()),
            r.y == neighbor_y(direction.idx()),
    {
        Self::NEIGHBORS_COORDS()[direction.index()]
    }

    /// Retrieves the diagonal offset matching the given `direction`
    pub fn diagonal_neighbor_coord(direction: DiagonalDirection) -> (r: Hex)
        ensures
            r.x == diagonal_x(direction.idx()),
            r.y == diagonal_y(direction.idx()),
    {
        Self::DIAGONAL_COORDS()[direction.index()]
    }

    /// Retrieves the neighbor coordinates of `self` in the given `direction`
    pub fn neighbor(self, direction: Direction) -> (r: Hex)
        requires
            fits_i32(self.x + neighbor_x(direction.idx())),
            fits_i32(self.y + neighbor_y(direction.idx())),
        ensures
            r.x == self.x + neighbor_x(direction.idx()),
            r.y == self.y + neighbor_y(direction.idx()),
            r.dist(self) == 1,
    {
        self.const_add(Self::neighbor_coord(direction))
    }

    /// Retrieves the diagonal neighbor coordinates of `self` in the given
    /// `direction`
    pub fn diagonal_neighbor(self, direction: DiagonalDirection) -> (r: Hex)
        requires
            fits_i32(self.x + diagonal_x(direction.idx())),
            fits_i32(self.y + diagonal_y(direction.idx())),
        ensures
            r.x == self.x + diagonal_x(direction.idx()),
            r.y == self.y + diagonal_y(direction.idx()),
            r.dist(self) == 2,
    {
        self.const_add(Self::diagonal_neighbor_coord(direction))
    }

    /// Retrieves the direction in which `other` neighbors `self`, or `None` if
    /// `other` is not a neighbor of `self`
    pub fn neighbor_direction(self, other: Self) -> (r: Option<Direction>)
        requires
            i32::MIN < self.x < i32::MAX,
            i32::MIN < self.y < i32::MAX,
        ensures
            r is Some <==> exists|i: int|
                0 <= i < 6 && #[trigger] neighbor_x(i) == other.x - self.x && neighbor_y(i)
                    == other.y - self.y,
            r is Some <==> self.dist(other) == 1,
            r matches Some(d) ==> other.x == self.x + neighbor_x(d.idx()) && other.y == self.y
                + neighbor_y(d.idx()),
    {
        let dirs = Direction::iter();
        let mut i: usize = 0;
        while i < 6
            invariant
                0 <= i <= 6,
                dirs.len() == 6,
                forall|k: int| 0 <= k < 6 ==> (#[trigger] dirs@[k]).idx() == k,
                i32::MIN < self.x < i32::MAX,
                i32::MIN < self.y < i32::MAX,
                forall|k: int|
                    0 <= k < i ==> !(#[trigger] neighbor_x(k) == other.x - self.x && neighbor_y(k)
                        == other.y - self.y),
            decreases 6 - i,
        {
            let d = dirs[i];
            if self.neighbor(d) == other {
                return Some(d);
            }
            i += 1;
        }
        proof {
            if self.dist(other) == 1 {
                let k = lemma_norm_one_is_neighbor(other.x - self.x, other.y - self.y);
                assert(neighbor_x(k) == other.x - self.x && neighbor_y(k) == other.y - self.y);
            }
        }
        None
    }

    /// Retrieves all 6 neighbor coordinates around `self`, in [`Direction`]
    /// order
    pub fn all_neighbors(self) -> (r: [Hex; 6])
        requires
            i32::MIN < self.x < i32::MAX,
            i32::MIN < self.y < i32::MAX,
        ensures
            forall|i: int|
                0 <= i < 6 ==> (#[trigger] r[i]).x == self.x + neighbor_x(i) && r[i].y == self.y
                    + neighbor_y(i),
            forall|i: int| 0 <= i < 6 ==> (#[trigger] r[i]).dist(self) == 1,
    {
        let n = Self::NEIGHBORS_COORDS();
        [
            self.const_add(n[0]),
            self.const_add(n[1]),
            self.const_add(n[2]),
            self.const_add(n[3]),
            self.const_add(n[4]),
            self.const_add(n[5]),
        ]
    }

    /// Retrieves all 6 diagonal neighbor coordinates around `self`, in
    /// [`DiagonalDirection`] order
    pub fn all_diagonals(self) -> (r: [Hex; 6])
        requires
            i32::MIN + 2 <= self.x <= i32::MAX - 2,
            i32::MIN + 2 <= self.y <= i32::MAX - 2,
        ensures
            forall|i: int|
                0 <= i < 6 ==> (#[trigger] r[i]).x == self.x + diagonal_x(i) && r[i].y == self.y
                    + diagonal_y(i),
            forall|i: int| 0 <= i < 6 ==> (#[trigger] r[i]).dist(self) == 2,
    {
        let n = Self::DIAGONAL_COORDS();
        [
            self.const_add(n[0]),
            self.const_add(n[1]),
            self.const_add(n[2]),
            self.const_add(n[3]),
            self.const_add(n[4]),
            self.const_add(n[5]),
        ]
    }

    /// Rotates `self` around the origin counter clockwise (by -60 degrees)
    pub fn counter_clockwise(self) -> (r: Self)
        requires
            self.in_cubic_range(),
        ensures
            r == self.ccw1(),
            r.in_cubic_range(),
            r.norm() == self.norm(),
    {
        Hex { x: -self.z(), y: -self.x }
    }

    /// Rotates `self` around the origin clockwise (by 60 degrees)
    pub fn clockwise(self) -> (r: Self)
        requires
            self.in_cubic_range(),
        ensures
            r == self.cw1(),
            r.in_cubic_range(),
            r.norm() == self.norm(),
    {
        Hex { x: -self.y, y: -self.z() }
    }

    /// Rotates `self` around the origin counter clockwise (older name of
    /// [`Self::counter_clockwise`])
    pub fn rotate_left(self) -> (r: Self)
        requires
            self.in_cubic_range(),
        ensures
            r == self.ccw1(),
    {
        self.counter_clockwise()
    }

    /// Rotates `self` around the origin clockwise (older name of
    /// [`Self::clockwise`])
    pub fn rotate_right(self) -> (r: Self)
        requires
            self.in_cubic_range(),
        ensures
            r == self.cw1(),
    {
        self.clockwise()
    }

    /// Rotates `self` around `center` counter clockwise (by -60 degrees)
    pub fn ccw_around(self, center: Self) -> (r: Self)
        requires
            self.sub_fits(center),
            self.minus(center).in_cubic_range(),
            self.minus(center).ccw1().add_fits(center),
        ensures
            r == self.minus(center).ccw1().plus(center),
    {
        self.const_sub(center).counter_clockwise().const_add(center)
    }

    /// Rotates `self` around `center` clockwise (by 60 degrees)
    pub fn cw_around(self, center: Self) -> (r: Self)
        requires
            self.sub_fits(center),
            self.minus(center).in_cubic_range(),
            self.minus(center).cw1().add_fits(center),
        ensures
            r == self.minus(center).cw1().plus(center),
    {
        self.const_sub(center).clockwise().const_add(center)
    }

    /// Rotates `self` around `center` counter clockwise (older name of
    /// [`Self::ccw_around`])
    pub fn rotate_left_around(self, center: Self) -> (r: Self)
        requires
            self.sub_fits(center),
            self.minus(center).in_cubic_range(),
            self.minus(center).ccw1().add_fits(center),
        ensures
            r == self.minus(center).ccw1().plus(center),
    {
        self.ccw_around(center)
    }

    /// Rotates `self` around `center` clockwise (older name of
    /// [`Self::cw_around`])
    pub fn rotate_right_around(self, center: Self) -> (r: Self)
        requires
            self.sub_fits(center),
            self.minus(center).in_cubic_range(),
            self.minus(center).cw1().add_fits(center),
        ensures
            r == self.minus(center).cw1().plus(center),
    {
        self.cw_around(center)
    }

    /// Rotates `self` around the origin counter clockwise `m` times (by
    /// `-60 * m` degrees)
    pub fn rotate_ccw(self, m: u32) -> (r: Self)
        requires
            self.in_cubic_range(),
        ensures
            r == self.ccw_n((m % 6) as nat),
            r.in_cubic_range(),
            r.norm() == self.norm(),
    {
        proof {
            lemma_rotations(self);
        }
        let k = m % 6;
        if k == 1 {
            self.counter_clockwise()
        } else if k == 2 {
            self.counter_clockwise().counter_clockwise()
        } else if k == 3 {
            self.const_neg()
        } else if k == 4 {
            self.clockwise().clockwise()
        } else if k == 5 {
            self.clockwise()
        } else {
            self
        }
    }

    /// Rotates `self` around the origin clockwise `m` times (by `60 * m`
    /// degrees)
    pub fn rotate_cw(self, m: u32) -> (r: Self)
        requires
            self.in_cubic_range(),
        ensures
            r == self.cw_n((m % 6) as nat),
            r.in_cubic_range(),
            r.norm() == self.norm(),
    {
        proof {
            lemma_rotations(self);
        }
        let k = m % 6;
        if k == 1 {
            self.clockwise()
        } else if k == 2 {
            self.clockwise().clockwise()
        } else if k == 3 {
            self.const_neg()
        } else if k == 4 {
            self.counter_clockwise().counter_clockwise()
        } else if k == 5 {
            self.counter_clockwise()
        } else {
            self
        }
    }

    /// Rotates `self` around `center` counter clockwise `m` times
    pub fn rotate_ccw_around(self, center: Self, m: u32) -> (r: Self)
        requires
            self.sub_fits(center),
            self.minus(center).in_cubic_range(),
            self.minus(center).ccw_n((m % 6) as nat).add_fits(center),
        ensures
            r == self.minus(center).ccw_n((m % 6) as nat).plus(center),
    {
        self.const_sub(center).rotate_ccw(m).const_add(center)
    }

    /// Rotates `self` around `center` clockwise `m` times
    pub fn rotate_cw_around(self, center: Self, m: u32) -> (r: Self)
        requires
            self.sub_fits(center),
            self.minus(center).in_cubic_range(),
            self.minus(center).cw_n((m % 6) as nat).add_fits(center),
        ensures
            r == self.minus(center).cw_n((m % 6) as nat).plus(center),
    {
        self.const_sub(center).rotate_cw(m).const_add(center)
    }

    /// Reflection of `self` across the `x` axis: `(x, z)`
    pub fn reflect_x(self) -> (r: Self)
        requires
            self.x > i32::MIN,
            fits_i32(self.zi()),
        ensures
            r.x == self.x,
            r.y == self.zi(),
    {
        Hex { x: self.x, y: self.z() }
    }

    /// Reflection of `self` across the `y` axis: `(z, y)`
    pub fn reflect_y(self) -> (r: Self)
        requires
            self.x > i32::MIN,
            fits_i32(self.zi()),
        ensures
            r.x == self.zi(),
            r.y == self.y,
    {
        Hex { x: self.z(), y: self.y }
    }

    /// Reflection of `self` across the `z` axis: `(y, x)`
    pub fn reflect_z(self) -> (r: Self)
        ensures
            r.x == self.y,
            r.y == self.x,
    {
        Hex { x: self.y, y: self.x }
    }

    /// Finds in which [`DiagonalDirection`] wedge `rhs` is relative to `self`
    pub fn diagonal_way_to(self, rhs: Self) -> (r: DirectionWay<DiagonalDirection>)
        requires
            rhs.sub_fits(self),
            way_args_fit(rhs.x - self.x, rhs.y - self.y),
        ensures
            r == diagonal_way_spec(rhs.x - self.x, rhs.y - self.y),
    {
        let c = rhs.const_sub(self).to_cubic_array();
        let (x, y, z) = (c[0], c[1], c[2]);
        let xa = if x < 0 { -x } else { x };
        let ya = if y < 0 { -y } else { y };
        let za = if z < 0 { -z } else { z };
        let m = if xa >= ya && xa >= za {
            xa
        } else if ya >= xa && ya >= za {
            ya
        } else {
            za
        };
        if m == xa {
            DirectionWay::way_from(x < 0, xa == ya, xa == za, DiagonalDirection::Right)
        } else if m == ya {
            DirectionWay::way_from(y < 0, ya == za, ya == xa, DiagonalDirection::BottomLeft)
        } else {
            DirectionWay::way_from(z < 0, za == xa, za == ya, DiagonalDirection::TopLeft)
        }
    }

    /// Finds in which [`DiagonalDirection`] wedge `rhs` is relative to `self`,
    /// taking the first direction in case of a tie
    pub fn main_diagonal_to(self, rhs: Self) -> (r: DiagonalDirection)
        requires
            rhs.sub_fits(self),
            way_args_fit(rhs.x - self.x, rhs.y - self.y),
        ensures
            r == diagonal_way_spec(rhs.x - self.x, rhs.y - self.y).first(),
    {
        self.diagonal_way_to(rhs).unwrap()
    }

    /// Finds in which [`Direction`] wedge `rhs` is relative to `self`
    pub fn way_to(self, rhs: Self) -> (r: DirectionWay<Direction>)
        requires
            rhs.sub_fits(self),
            way_args_fit(rhs.x - self.x, rhs.y - self.y),
        ensures
            r == way_spec(rhs.x - self.x, rhs.y - self.y),
    {
        let c = rhs.const_sub(self).to_cubic_array();
        let (x, y, z) = (c[1] - c[0], c[2] - c[1], c[0] - c[2]);
        let xa = if x < 0 { -x } else { x };
        let ya = if y < 0 { -y } else { y };
        let za = if z < 0 { -z } else { z };
        let m = if xa >= ya && xa >= za {
            xa
        } else if ya >= xa && ya >= za {
            ya
        } else {
            za
        };
        if m == xa {
            DirectionWay::way_from(x < 0, xa == ya, xa == za, Direction::BottomLeft)
        } else if m == ya {
            DirectionWay::way_from(y < 0, ya == za, ya == xa, Direction::Top)
        } else {
            DirectionWay::way_from(z < 0, za == xa, za == ya, Direction::BottomRight)
        }
    }

    /// Finds in which [`Direction`] wedge `rhs` is relative to `self`, taking
    /// the first direction in case of a tie
    pub fn main_direction_to(self, rhs: Self) -> (r: Direction)
        requires
            rhs.sub_fits(self),
            way_args_fit(rhs.x - self.x, rhs.y - self.y),
        ensures
            r == way_spec(rhs.x - self.x, rhs.y - self.y).first(),
    {
        self.way_to(rhs).unwrap()
    }
}

/// Facts about rotations of a coordinate whose cubic coordinates are all in
/// `-i32::MAX ..= i32::MAX`: each rotation keeps that range and the length,
/// negation is three rotations, and the counter clockwise rotations are the
/// clockwise ones in reverse.
pub proof fn lemma_rotations(h: Hex)
    requires
        h.in_cubic_range(),
    ensures
        h.cw1().in_cubic_range(),
        h.ccw1().in_cubic_range(),
        h.cw1().norm() == h.norm(),
        h.ccw1().norm() == h.norm(),
        h.cw1().ccw1() == h,
        h.ccw1().cw1() == h,
        h.cw_n(3) == (Hex { x: (-h.x) as i32, y: (-h.y) as i32 }),
        h.ccw_n(3) == (Hex { x: (-h.x) as i32, y: (-h.y) as i32 }),
        h.cw_n(6) == h,
        h.ccw_n(6) == h,
        h.ccw_n(2) == h.cw_n(4),
        h.ccw_n(1) == h.cw_n(5),
        h.cw_n(2) == h.ccw_n(4),
        h.cw_n(1) == h.ccw_n(5),
        h.ccw_n(1) == h.ccw1(),
        h.cw_n(1) == h.cw1(),
        h.ccw_n(2) == h.ccw1().ccw1(),
        h.cw_n(2) == h.cw1().cw1(),
        h.ccw_n(4) == h.cw1().cw1(),
        h.cw_n(4) == h.ccw1().ccw1(),
        h.cw_n(0) == h,
        h.ccw_n(0) == h,
{
    reveal_with_fuel(Hex::cw_n, 7);
    reveal_with_fuel(Hex::ccw_n, 7);
}

/// `k` clockwise rotations of `(x, y)`, in closed form, for `k` in `0..6`.
pub open spec fn cw_formula(x: int, y: int, k: int) -> (int, int) {
    if k == 0 {
        (x, y)
    } else if k == 1 {
        (-y, x + y)
    } else if k == 2 {
        (-x - y, x)
    } else if k == 3 {
        (-x, -y)
    } else if k == 4 {
        (y, -x - y)
    } else {
        (x + y, -x)
    }
}

/// The rotations of a coordinate in cubic range follow [`cw_formula`], the
/// counter clockwise ones as the clockwise rotations the other way round.
#[verifier::spinoff_prover]
#[verifier::rlimit(40)]
proof fn lemma_rotation_formula(h: Hex, k: int)
    requires
        h.in_cubic_range(),
        0 <= k < 6,
    ensures
        (h.cw_n(k as nat).x as int, h.cw_n(k as nat).y as int) == cw_formula(h.x as int, h.y as int, k),
        (h.ccw_n(k as nat).x as int, h.ccw_n(k as nat).y as int) == cw_formula(
            h.x as int,
            h.y as int,
            (6 - k) % 6,
        ),
{
    lemma_rotations(h);
    let (x, y) = (h.x as int, h.y as int);
    assert((h.cw1().x as int, h.cw1().y as int) == cw_formula(x, y, 1));
    assert((h.ccw1().x as int, h.ccw1().y as int) == cw_formula(x, y, 5));
    if k == 2 || k == 4 {
        assert((h.cw1().cw1().x as int, h.cw1().cw1().y as int) == cw_formula(x, y, 2));
        assert((h.ccw1().ccw1().x as int, h.ccw1().ccw1().y as int) == cw_formula(x, y, 4));
    }
}

/// Rotating `m` times clockwise and then `m` times counter clockwise (or the
/// other way round) gives the coordinate back, and rotations keep the
/// length.
#[verifier::spinoff_prover]
#[verifier::rlimit(40)]
pub proof fn lemma_rotation_round_trip(h: Hex, m: nat)
    requires
        h.in_cubic_range(),
    ensures
        h.cw_n(m % 6).ccw_n(m % 6) == h,
        h.ccw_n(m % 6).cw_n(m % 6) == h,
        h.cw_n(m % 6).norm() == h.norm(),
        h.ccw_n(m % 6).norm() == h.norm(),
        h.cw_n(m % 6).in_cubic_range(),
        h.ccw_n(m % 6).in_cubic_range(),
{
    let k = (m % 6) as int;
    lemma_rotation_formula(h, k);
    let a = h.cw_n(k as nat);
    let b = h.ccw_n(k as nat);
    assert(a.in_cubic_range() && b.in_cubic_range());
    lemma_rotation_formula(a, k);
    lemma_rotation_formula(b, k);
}

/// Rotations are linear: rotating a sum is summing the rotations.
#[verifier::spinoff_prover]
#[verifier::rlimit(40)]
pub proof fn lemma_rotation_linear(a: Hex, b: Hex, m: nat)
    requires
        a.in_cubic_range(),
        b.in_cubic_range(),
        a.add_fits(b),
        a.plus(b).in_cubic_range(),
    ensures
        a.plus(b).cw_n(m % 6) == a.cw_n(m % 6).plus(b.cw_n(m % 6)),
        a.plus(b).ccw_n(m % 6) == a.ccw_n(m % 6).plus(b.ccw_n(m % 6)),
{
    let k = (m % 6) as int;
    lemma_rotation_formula(a, k);
    lemma_rotation_formula(b, k);
    lemma_rotation_formula(a.plus(b), k);
}

/// Rotating around `c` clockwise and then counter clockwise the same number
/// of times gives the coordinate back; the distance to `c` is kept, and `c`
/// itself does not move.
#[verifier::spinoff_prover]
#[verifier::rlimit(40)]
pub proof fn lemma_rotation_around(h: Hex, c: Hex, m: nat)
    requires
        h.sub_fits(c),
        h.minus(c).in_cubic_range(),
        h.minus(c).cw_n(m % 6).add_fits(c),
    ensures
        h.minus(c).cw_n(m % 6).plus(c).minus(c).ccw_n(m % 6).plus(c) == h,
        h.minus(c).cw_n(m % 6).plus(c).dist(c) == h.dist(c),
        c.minus(c).cw_n(m % 6).plus(c) == c,
        h.minus(c).cw_n(6).plus(c) == h,
{
    let k = (m % 6) as int;
    let d = h.minus(c);
    lemma_rotation_round_trip(d, m);
    lemma_rotations(d);
    lemma_rotation_formula(d, k);
    let o = Hex { x: 0, y: 0 };
    assert(c.minus(c) == o);
    lemma_rotation_formula(o, k);
    let r = d.cw_n(k as nat).plus(c);
    assert(r.minus(c) == d.cw_n(k as nat));
}

/// A vector of hexagonal length 1 is one of the six neighbor offsets.
pub proof fn lemma_norm_one_is_neighbor(dx: int, dy: int) -> (i: int)
    requires
        hex_norm(dx, dy) == 1,
    ensures
        0 <= i < 6,
        neighbor_x(i) == dx,
        neighbor_y(i) == dy,
{
    if dx == 1 && dy == -1 {
        0
    } else if dx == 0 && dy == -1 {
        1
    } else if dx == -1 && dy == 0 {
        2
    } else if dx == -1 && dy == 1 {
        3
    } else if dx == 0 && dy == 1 {
        4
    } else {
        5
    }
}

/// The way from a coordinate to its neighbor is that neighbor's direction,
/// without tie.
pub proof fn lemma_way_to_neighbor(d: Direction)
    ensures
        way_spec(neighbor_x(d.idx()), neighbor_y(d.idx())) == DirectionWay::Single(d),
{
    crate::direction::lemma_direction_idx_injective(d, d);
}

/// Swapping the two ends of a way turns its main direction into the opposite
/// direction.
pub proof fn lemma_way_reversed(x: int, y: int)
    requires
        x != 0 || y != 0,
    ensures
        way_spec(-x, -y).first() == way_spec(x, y).first().opposite_of(),
        diagonal_way_spec(-x, -y).first() == diagonal_way_spec(x, y).first().opposite_of(),
{
    let d = way_spec(x, y).first();
    crate::direction::lemma_direction_idx_injective(d, d);
    let e = diagonal_way_spec(x, y).first();
    crate::direction::lemma_diagonal_idx_injective(e, e);
}

/// Unsigned absolute value of an `i32`.
fn iabs_u32(v: i32) -> (r: u32)
    ensures
        r == iabs(v as int),
{
    if v >= 0 {
        v as u32
    } else if v == i32::MIN {
        2147483648u32
    } else {
        (-v) as u32
    }
}

} // verus!
