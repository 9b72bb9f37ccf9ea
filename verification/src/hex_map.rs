//! Hexagon shaped maps with wraparound: coordinates leaving the map come back
//! in from the opposite side.
use crate::hex::{fits_i32, hex_norm, wide_distance, wide_length, Hex};
use crate::resolution::{higher_x, higher_y, lemma_wrap_unique, lower_spec};
use crate::shapes::{range_fits, xy_less};
use vstd::prelude::*;

verus! {

/// `x` coordinate of the `k`-th wraparound mirror of the origin for a map of
/// radius `r`: the centers of the six copies of the map around it.
pub open spec fn mirror_x(r: int, k: int) -> int {
    if k == 0 {
        r + 1
    } else if k == 1 {
        2 * r + 1
    } else if k == 2 {
        r
    } else if k == 3 {
        -r - 1
    } else if k == 4 {
        -2 * r - 1
    } else {
        -r
    }
}

/// `y` coordinate of the `k`-th wraparound mirror, see [`mirror_x`].
pub open spec fn mirror_y(r: int, k: int) -> int {
    if k == 0 {
        -2 * r - 1
    } else if k == 1 {
        -r
    } else if k == 2 {
        r + 1
    } else if k == 3 {
        2 * r + 1
    } else if k == 4 {
        r
    } else {
        -r - 1
    }
}

/// `mirrors` are the six wraparound mirrors of a map of radius `r`.
pub open spec fn are_mirrors(mirrors: [Hex; 6], r: int) -> bool {
    forall|k: int| 0 <= k < 6 ==> (#[trigger] mirrors[k]).x == mirror_x(r, k) && mirrors[k].y == mirror_y(r, k)
}

/// `h` is one of the six wraparound mirrors of a map of radius `r`.
pub open spec fn is_mirror(h: Hex, r: int) -> bool {
    exists|k: int| 0 <= k < 6 && h.x == #[trigger] mirror_x(r, k) && h.y == mirror_y(r, k)
}

/// `mirrors` hold the six wraparound mirrors of a map of radius `r`, in any
/// order: each entry is a mirror and each mirror is an entry.
pub open spec fn mirror_set(mirrors: [Hex; 6], r: int) -> bool {
    &&& forall|j: int| 0 <= j < 6 ==> is_mirror(#[trigger] mirrors[j], r)
    &&& forall|k: int| 0 <= k < 6 ==> #[trigger] holds_mirror(mirrors, r, k)
}

/// The `k`-th wraparound mirror of a map of radius `r` is one of `mirrors`.
pub open spec fn holds_mirror(mirrors: [Hex; 6], r: int, k: int) -> bool {
    exists|j: int| 0 <= j < 6 && (#[trigger] mirrors[j]).x == mirror_x(r, k) && mirrors[j].y == mirror_y(r, k)
}

/// The mirrors in their standard order are a mirror set.
pub proof fn lemma_standard_mirror_set(mirrors: [Hex; 6], r: int)
    requires
        are_mirrors(mirrors, r),
    ensures
        mirror_set(mirrors, r),
{
    assert forall|j: int| 0 <= j < 6 implies is_mirror(#[trigger] mirrors[j], r) by {
        assert(mirrors[j].x == mirror_x(r, j) && mirrors[j].y == mirror_y(r, j));
    }
    assert forall|k: int| 0 <= k < 6 implies #[trigger] holds_mirror(mirrors, r, k) by {
        assert(mirrors[k].x == mirror_x(r, k) && mirrors[k].y == mirror_y(r, k));
    }
}

/// Coordinates of the combination `a * m0 + b * m2` of the first and third
/// mirrors: the centers of all the copies of a map of radius `r`.
pub open spec fn lattice_x(a: int, b: int, r: int) -> int {
    a * (r + 1) + b * r
}

/// See [`lattice_x`].
pub open spec fn lattice_y(a: int, b: int, r: int) -> int {
    a * (-2 * r - 1) + b * (r + 1)
}

/// Coefficient of the first mirror in the `k`-th mirror.
pub open spec fn mirror_a(k: int) -> int {
    if k == 0 || k == 1 {
        1
    } else if k == 3 || k == 4 {
        -1
    } else {
        0
    }
}

/// Coefficient of the third mirror in the `k`-th mirror.
pub open spec fn mirror_b(k: int) -> int {
    if k == 1 || k == 2 {
        1
    } else if k == 4 || k == 5 {
        -1
    } else {
        0
    }
}

/// Adding the `k`-th mirror to a combination of mirrors gives another one.
proof fn lemma_lattice_step(a: int, b: int, r: int, k: int)
    requires
        0 <= k < 6,
    ensures
        lattice_x(a + mirror_a(k), b + mirror_b(k), r) == lattice_x(a, b, r) + mirror_x(r, k),
        lattice_y(a + mirror_a(k), b + mirror_b(k), r) == lattice_y(a, b, r) + mirror_y(r, k),
{
    let (ca, cb) = (mirror_a(k), mirror_b(k));
    assert(lattice_x(a + ca, b + cb, r) == lattice_x(a, b, r) + ca * (r + 1) + cb * r) by (nonlinear_arith);
    assert(lattice_y(a + ca, b + cb, r) == lattice_y(a, b, r) + ca * (-2 * r - 1) + cb * (r + 1))
        by (nonlinear_arith);
    assert(ca * (r + 1) + cb * r == mirror_x(r, k)) by (nonlinear_arith)
        requires
            ca == mirror_a(k),
            cb == mirror_b(k),
            0 <= k < 6,
    ;
    assert(ca * (-2 * r - 1) + cb * (r + 1) == mirror_y(r, k)) by (nonlinear_arith)
        requires
            ca == mirror_a(k),
            cb == mirror_b(k),
            0 <= k < 6,
    ;
}

/// Outside of the map of radius `r`, some mirror is closer than the origin.
pub proof fn lemma_mirror_reduces(x: int, y: int, r: int) -> (k: int)
    requires
        r >= 0,
        hex_norm(x, y) > r,
    ensures
        0 <= k < 6,
        hex_norm(x - mirror_x(r, k), y - mirror_y(r, k)) < hex_norm(x, y),
{
    let z = -x - y;
    let n = hex_norm(x, y);
    if x == n {
        if z < 0 {
            1
        } else {
            0
        }
    } else if -x == n {
        if z > 0 {
            4
        } else {
            3
        }
    } else if y == n {
        if x < 0 {
            3
        } else {
            2
        }
    } else if -y == n {
        if x > 0 {
            0
        } else {
            5
        }
    } else if z == n {
        if y < 0 {
            5
        } else {
            4
        }
    } else {
        if y > 0 {
            2
        } else {
            1
        }
    }
}

impl Hex {
    /// Computes the 6 mirror centers of the origin for hexagonal *wraparound*
    /// maps of radius `radius`: the centers of the six copies of the map that
    /// surround it.
    pub fn wraparound_mirrors(radius: u32) -> (r: [Hex; 6])
        requires
            radius <= 0x3fff_ffff,
        ensures
            are_mirrors(r, radius as int),
    {
        let radius = radius as i32;
        let mirror = Hex::new(2 * radius + 1, -radius);
        let center = mirror;
        let left = Hex::new(mirror.x + mirror.y, -mirror.x);
        let right = Hex::new(-mirror.y, mirror.x + mirror.y);
        [left, center, right, left.const_neg(), center.const_neg(), right.const_neg()]
    }

    /// Wraps `self` into the hexagonal map of radius `radius` around the
    /// origin using its wraparound `mirrors`, given in any order: while
    /// `self` is outside of the map, subtracts the mirror closest to it (the
    /// first one of them in case of a tie). The result is inside the map and
    /// differs from `self` by a combination of mirrors; coordinates already
    /// inside are unchanged.
    pub fn wrap_with(self, radius: u32, mirrors: &[Hex; 6]) -> (r: Self)
        requires
            radius <= 0x3fff_ffff,
            mirror_set(*mirrors, radius as int),
            self.norm() <= i32::MAX,
        ensures
            r.norm() <= radius,
            self.norm() <= radius ==> r == self,
            exists|a: int, b: int|
                self.x - r.x == lattice_x(a, b, radius as int) && self.y - r.y == lattice_y(a, b, radius as int),
            ({
                let (lx, ly) = lower_spec(self.x as int, self.y as int, radius as int);
                r.x == self.x - higher_x(lx, ly, radius as int) && r.y == self.y - higher_y(lx, ly, radius as int)
            }),
    {
        let ghost rr = radius as int;
        if wide_length(self) <= radius as i64 {
            assert(self.x - self.x == lattice_x(0, 0, rr) && self.y - self.y == lattice_y(0, 0, rr));
            proof {
                lemma_wrap_unique(self.x as int, self.y as int, rr, 0, 0, self.x as int, self.y as int);
            }
            return self;
        }
        let mut res = self;
        let ghost mut a: int = 0;
        let ghost mut b: int = 0;
        assert(lattice_x(0, 0, rr) == 0 && lattice_y(0, 0, rr) == 0);
        while wide_length(res) > radius as i64
            invariant
                rr == radius,
                radius <= 0x3fff_ffff,
                mirror_set(*mirrors, rr),
                res.norm() <= self.norm(),
                self.norm() <= i32::MAX,
                self.x - res.x == lattice_x(a, b, rr),
                self.y - res.y == lattice_y(a, b, rr),
            decreases res.norm(),
        {
            let ghost k = lemma_mirror_reduces(res.x as int, res.y as int, rr);
            assert(holds_mirror(*mirrors, rr, k));
            let ghost jk = choose|j: int|
                0 <= j < 6 && (#[trigger] mirrors[j]).x == mirror_x(rr, k) && mirrors[j].y == mirror_y(rr, k);
            let mut best: usize = 0;
            let mut best_d = wide_distance(res, mirrors[0]);
            let mut i: usize = 1;
            while i < 6
                invariant
                    1 <= i <= 6,
                    0 <= best < i,
                    best_d == res.dist(mirrors[best as int]),
                    forall|j: int| 0 <= j < i ==> best_d <= res.dist(#[trigger] mirrors[j]),
                decreases 6 - i,
            {
                let d = wide_distance(res, mirrors[i]);
                if d < best_d {
                    best = i;
                    best_d = d;
                }
                i += 1;
            }
            let m = mirrors[best];
            assert(res.dist(m) <= res.dist(mirrors[jk]));
            proof {
                assert(is_mirror(mirrors[best as int], rr));
                let kb = choose|kb: int| 0 <= kb < 6 && m.x == mirror_x(rr, kb) && m.y == mirror_y(rr, kb);
                lemma_lattice_step(a, b, rr, kb);
                a = a + mirror_a(kb);
                b = b + mirror_b(kb);
            }
            res = Hex { x: res.x - m.x, y: res.y - m.y };
        }
        assert(self.x - res.x == lattice_x(a, b, rr) && self.y - res.y == lattice_y(a, b, rr));
        proof {
            lemma_wrap_unique(self.x as int, self.y as int, rr, a, b, res.x as int, res.y as int);
        }
        res
    }
}

/// Hexagon shaped map of radius `radius` around `center`, with wraparound.
#[derive(Clone, Copy, Debug)]
pub struct HexMap {
    radius: u32,
    center: Hex,
    mirrors: [Hex; 6],
}

impl HexMap {
    /// The map keeps the wraparound mirrors of its radius.
    #[verifier::type_invariant]
    spec fn wf(self) -> bool {
        &&& self.radius <= 0x3fff_ffff
        &&& are_mirrors(self.mirrors, self.radius as int)
    }

    /// The map radius.
    pub closed spec fn radius_spec(self) -> u32 {
        self.radius
    }

    /// The map center.
    pub closed spec fn center_spec(self) -> Hex {
        self.center
    }

    /// Creates a new hexagonal map of the given `radius` around the origin
    pub fn new(radius: u32) -> (r: Self)
        requires
            radius <= 0x3fff_ffff,
        ensures
            r.radius_spec() == radius,
            r.center_spec() == (Hex { x: 0, y: 0 }),
    {
        HexMap { radius, center: Hex { x: 0, y: 0 }, mirrors: Hex::wraparound_mirrors(radius) }
    }

    /// Returns the map moved to a custom `center`
    pub fn with_center(self, center: Hex) -> (r: Self)
        ensures
            r.radius_spec() == self.radius_spec(),
            r.center_spec() == center,
    {
        proof {
            use_type_invariant(&self);
        }
        HexMap { radius: self.radius, center, mirrors: self.mirrors }
    }

    /// Returns the map center coordinates
    pub fn center(&self) -> (r: Hex)
        ensures
            r == self.center_spec(),
    {
        self.center
    }

    /// Returns the map radius
    pub fn radius(&self) -> (r: u32)
        ensures
            r == self.radius_spec(),
    {
        self.radius
    }

    /// Wraps `hex` into the map: the result is inside the map and differs
    /// from `hex` by a combination of mirrors, and coordinates already inside
    /// are unchanged.
    pub fn wrapped_hex(&self, hex: Hex) -> (r: Hex)
        requires
            hex.sub_fits(self.center_spec()),
            hex.dist(self.center_spec()) <= i32::MAX,
            range_fits(self.center_spec(), self.radius_spec() as int),
        ensures
            r == self.wrapped_spec(hex),
            r.dist(self.center_spec()) <= self.radius_spec(),
            hex.dist(self.center_spec()) <= self.radius_spec() ==> r == hex,
            exists|a: int, b: int|
                hex.x - r.x == lattice_x(a, b, self.radius_spec() as int) && hex.y - r.y == lattice_y(
                    a,
                    b,
                    self.radius_spec() as int,
                ),
            ({
                let (dx, dy) = (hex.x - self.center_spec().x, hex.y - self.center_spec().y);
                let (lx, ly) = lower_spec(dx, dy, self.radius_spec() as int);
                r.x == dx - higher_x(lx, ly, self.radius_spec() as int) + self.center_spec().x && r.y == dy
                    - higher_y(lx, ly, self.radius_spec() as int) + self.center_spec().y
            }),
    {
        proof {
            use_type_invariant(self);
            lemma_standard_mirror_set(self.mirrors, self.radius as int);
        }
        let pos = hex.const_sub(self.center);
        let local = pos.wrap_with(self.radius, &self.mirrors);
        proof {
            let (a, b) = choose|a: int, b: int|
                pos.x - local.x == lattice_x(a, b, self.radius as int) && pos.y - local.y == lattice_y(
                    a,
                    b,
                    self.radius as int,
                );
            assert(hex.x - (local.x + self.center.x) == lattice_x(a, b, self.radius as int));
            assert(hex.y - (local.y + self.center.y) == lattice_y(a, b, self.radius as int));
        }
        local.const_add(self.center)
    }

    /// The coordinates of `hex` wrapped into the map: `hex` relative to the
    /// center of its chunk of radius `radius` around the map center, moved
    /// back to the map center.
    pub open spec fn wrapped_spec(self, hex: Hex) -> Hex {
        let (dx, dy) = (hex.x - self.center_spec().x, hex.y - self.center_spec().y);
        let (lx, ly) = lower_spec(dx, dy, self.radius_spec() as int);
        Hex {
            x: (dx - higher_x(lx, ly, self.radius_spec() as int) + self.center_spec().x) as i32,
            y: (dy - higher_y(lx, ly, self.radius_spec() as int) + self.center_spec().y) as i32,
        }
    }

    /// Computes the neighbors of `hex` wrapped into the map, in `Direction`
    /// order.
    pub fn wrapped_neighbors(&self, hex: Hex) -> (r: [Hex; 6])
        requires
            i32::MIN + 1 < hex.x < i32::MAX - 1,
            i32::MIN + 1 < hex.y < i32::MAX - 1,
            forall|k: int|
                0 <= k < 6 ==> (Hex {
                    x: (hex.x + crate::hex::neighbor_x(k)) as i32,
                    y: (hex.y + crate::hex::neighbor_y(k)) as i32,
                }).sub_fits(self.center_spec()) && (Hex {
                    x: (hex.x + crate::hex::neighbor_x(k)) as i32,
                    y: (hex.y + crate::hex::neighbor_y(k)) as i32,
                }).dist(self.center_spec()) <= i32::MAX,
            range_fits(self.center_spec(), self.radius_spec() as int),
        ensures
            forall|k: int| 0 <= k < 6 ==> (#[trigger] r[k]).dist(self.center_spec()) <= self.radius_spec(),
            forall|k: int|
                0 <= k < 6 ==> #[trigger] r[k] == self.wrapped_spec(
                    Hex {
                        x: (hex.x + crate::hex::neighbor_x(k)) as i32,
                        y: (hex.y + crate::hex::neighbor_y(k)) as i32,
                    },
                ),
    {
        let n = hex.all_neighbors();
        let mut out = n;
        let mut i: usize = 0;
        while i < 6
            invariant
                0 <= i <= 6,
                forall|k: int|
                    0 <= k < 6 ==> (#[trigger] n[k]).x == hex.x + crate::hex::neighbor_x(k) && n[k].y == hex.y
                        + crate::hex::neighbor_y(k),
                forall|k: int|
                    0 <= k < 6 ==> (Hex {
                        x: (hex.x + crate::hex::neighbor_x(k)) as i32,
                        y: (hex.y + crate::hex::neighbor_y(k)) as i32,
                    }).sub_fits(self.center_spec()) && (Hex {
                        x: (hex.x + crate::hex::neighbor_x(k)) as i32,
                        y: (hex.y + crate::hex::neighbor_y(k)) as i32,
                    }).dist(self.center_spec()) <= i32::MAX,
                range_fits(self.center_spec(), self.radius_spec() as int),
                forall|k: int| 0 <= k < i ==> (#[trigger] out[k]).dist(self.center_spec()) <= self.radius_spec(),
                forall|k: int| 0 <= k < i ==> #[trigger] out[k] == self.wrapped_spec(n[k]),
            decreases 6 - i,
        {
            assert(n[i as int] == Hex {
                x: (hex.x + crate::hex::neighbor_x(i as int)) as i32,
                y: (hex.y + crate::hex::neighbor_y(i as int)) as i32,
            });
            out[i] = self.wrapped_hex(n[i]);
            i += 1;
        }
        out
    }

    /// Returns the number of hexagons in the map
    pub fn hex_count(&self) -> (r: usize)
        requires
            3 * self.radius_spec() * (self.radius_spec() + 1) + 1 <= u32::MAX,
        ensures
            r == 3 * self.radius_spec() * (self.radius_spec() + 1) + 1,
    {
        Hex::range_count(self.radius) as usize
    }

    /// Returns all the coordinates of the map, ordered by `x` then by `y`.
    pub fn all_coords(&self) -> (v: Vec<Hex>)
        requires
            range_fits(self.center_spec(), self.radius_spec() as int),
        ensures
            v.len() == 3 * self.radius_spec() * (self.radius_spec() + 1) + 1,
            forall|i: int| 0 <= i < v.len() ==> (#[trigger] v@[i]).dist(self.center_spec()) <= self.radius_spec(),
            forall|i: int, j: int| 0 <= i < j < v.len() ==> xy_less(#[trigger] v@[i], #[trigger] v@[j]),
            forall|h: Hex| h.dist(self.center_spec()) <= self.radius_spec() ==> v@.contains(h),
    {
        self.center.range(self.radius)
    }
}

} // verus!
