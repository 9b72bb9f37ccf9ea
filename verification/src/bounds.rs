//! Hexagonal bounds: a center and a radius.
use crate::edge_direction::EdgeDirection;
use crate::hex::{fits_i32, hex_norm, wide_distance, Hex};
use crate::resolution::{higher_fits, higher_x, higher_y, lower_fits, lower_spec};
use crate::shapes::{range_fits, xy_less};
use vstd::prelude::*;

verus! {

/// Hexagonal bounds: every coordinate at most `radius` steps away from
/// `center`.
#[derive(Clone, Copy, Debug, PartialEq, Eq, Structural)]
pub struct HexBounds {
    /// bounds center
    pub center: Hex,
    /// bounds radius
    pub radius: u32,
}

/// Cubic coordinate of `h` on `axis`: `x` for `0`, `y` for `1`, `z` otherwise.
pub open spec fn cub(h: Hex, axis: int) -> int {
    if axis == 0 {
        h.x as int
    } else if axis == 1 {
        h.y as int
    } else {
        -h.x - h.y
    }
}

/// Largest cubic coordinate on `axis` of the coordinates of a non empty `s`.
pub open spec fn seq_max(s: Seq<Hex>, axis: int) -> int
    decreases s.len(),
{
    if s.len() <= 1 {
        cub(s[0], axis)
    } else {
        let m = seq_max(s.drop_last(), axis);
        let v = cub(s.last(), axis);
        if v > m {
            v
        } else {
            m
        }
    }
}

/// Smallest cubic coordinate on `axis` of the coordinates of a non empty `s`.
pub open spec fn seq_min(s: Seq<Hex>, axis: int) -> int
    decreases s.len(),
{
    if s.len() <= 1 {
        cub(s[0], axis)
    } else {
        let m = seq_min(s.drop_last(), axis);
        let v = cub(s.last(), axis);
        if v < m {
            v
        } else {
            m
        }
    }
}

/// Radius of the smallest bounds containing coordinates whose largest cubic
/// coordinates are `(a0, a1, a2)` and smallest are `(b0, b1, b2)`: half the
/// largest extent along one axis, or a third of the sum of the largest (or
/// of the smallest) coordinates, rounded up.
pub open spec fn radius_of(a0: int, a1: int, a2: int, b0: int, b1: int, b2: int) -> int {
    let duo = if a0 - b0 >= a1 - b1 && a0 - b0 >= a2 - b2 {
        a0 - b0
    } else if a1 - b1 >= a2 - b2 {
        a1 - b1
    } else {
        a2 - b2
    };
    let trio = if a0 + a1 + a2 >= -(b0 + b1 + b2) {
        a0 + a1 + a2
    } else {
        -(b0 + b1 + b2)
    };
    let d = (duo + 1) / 2;
    let t = (trio + 2) / 3;
    if d >= t {
        d
    } else {
        t
    }
}

/// Center of the bounds of radius `r` for the same extremes: starting from
/// the smallest possible cubic center, move along `x`, then along `y`, until
/// the cubic coordinates sum to zero.
pub open spec fn center_of(a0: int, a1: int, a2: int, b0: int, b1: int, r: int) -> (int, int) {
    let (min0, min1, min2) = (a0 - r, a1 - r, a2 - r);
    let (max0, max1) = (b0 + r, b1 + r);
    let sum = min0 + min1 + min2;
    if -sum <= max0 - min0 {
        (min0 - sum, min1)
    } else if -(sum + max0 - min0) <= max1 - min1 {
        (max0, min1 - (sum + max0 - min0))
    } else {
        (max0, max1)
    }
}

/// Radius of the smallest bounds containing the non empty `s`.
pub open spec fn bounds_radius(s: Seq<Hex>) -> int {
    radius_of(seq_max(s, 0), seq_max(s, 1), seq_max(s, 2), seq_min(s, 0), seq_min(s, 1), seq_min(s, 2))
}

/// Center of the bounds computed for the non empty `s`.
pub open spec fn bounds_center(s: Seq<Hex>) -> (int, int) {
    center_of(seq_max(s, 0), seq_max(s, 1), seq_max(s, 2), seq_min(s, 0), seq_min(s, 1), bounds_radius(s))
}

/// The bounds of the non empty `s` are representable: center coordinates
/// in `i32`, radius in `u32`.
pub open spec fn bounds_fit(s: Seq<Hex>) -> bool {
    &&& fits_i32(bounds_center(s).0)
    &&& fits_i32(bounds_center(s).1)
    &&& bounds_radius(s) <= u32::MAX
}

/// Coordinates of `(x, y)` wrapped into the bounds of radius `r` around
/// `(cx, cy)`: what [`HexBounds::wrap`] computes.
pub open spec fn bounds_wrap_spec(cx: int, cy: int, r: int, x: int, y: int) -> (int, int) {
    let (wx, wy) = crate::resolution::local_spec(x - cx, y - cy, r);
    (wx + cx, wy + cy)
}

/// Wrapping into bounds lands in the bounds, leaves coordinates already in
/// the bounds unchanged, and so wrapping twice is wrapping once.
pub proof fn lemma_bounds_wrap(cx: int, cy: int, r: int, x: int, y: int)
    requires
        r >= 0,
    ensures
        ({
            let (wx, wy) = bounds_wrap_spec(cx, cy, r, x, y);
            &&& hex_norm(wx - cx, wy - cy) <= r
            &&& bounds_wrap_spec(cx, cy, r, wx, wy) == (wx, wy)
        }),
        hex_norm(x - cx, y - cy) <= r ==> bounds_wrap_spec(cx, cy, r, x, y) == (x, y),
{
    crate::resolution::lemma_wrap_idempotent(x - cx, y - cy, r);
    let (wx, wy) = bounds_wrap_spec(cx, cy, r, x, y);
    assert(wx - cx == crate::resolution::local_spec(x - cx, y - cy, r).0);
    assert(wy - cy == crate::resolution::local_spec(x - cx, y - cy, r).1);
}

/// The extreme cubic coordinates bound every coordinate of `s`.
pub proof fn lemma_seq_extremes(s: Seq<Hex>, axis: int)
    requires
        s.len() > 0,
    ensures
        forall|k: int| 0 <= k < s.len() ==> seq_min(s, axis) <= #[trigger] cub(s[k], axis) <= seq_max(s, axis),
        exists|k: int| 0 <= k < s.len() && cub(s[k], axis) == seq_max(s, axis),
        exists|k: int| 0 <= k < s.len() && cub(s[k], axis) == seq_min(s, axis),
    decreases s.len(),
{
    if s.len() > 1 {
        let front = s.drop_last();
        lemma_seq_extremes(front, axis);
        assert forall|k: int| 0 <= k < s.len() implies seq_min(s, axis) <= #[trigger] cub(s[k], axis) <= seq_max(
            s,
            axis,
        ) by {
            if k < s.len() - 1 {
                assert(s[k] == front[k]);
            }
        }
        let kmax = choose|k: int| 0 <= k < front.len() && cub(front[k], axis) == seq_max(front, axis);
        let kmin = choose|k: int| 0 <= k < front.len() && cub(front[k], axis) == seq_min(front, axis);
        assert(s[kmax] == front[kmax]);
        assert(s[kmin] == front[kmin]);
        if cub(s.last(), axis) > seq_max(front, axis) {
            assert(cub(s[s.len() - 1], axis) == seq_max(s, axis));
        } else {
            assert(cub(s[kmax], axis) == seq_max(s, axis));
        }
        if cub(s.last(), axis) < seq_min(front, axis) {
            assert(cub(s[s.len() - 1], axis) == seq_min(s, axis));
        } else {
            assert(cub(s[kmin], axis) == seq_min(s, axis));
        }
    } else {
        assert(cub(s[0], axis) == seq_max(s, axis));
        assert(cub(s[0], axis) == seq_min(s, axis));
    }
}

/// The bounds computed for a non empty `s` contain every coordinate of `s`.
pub proof fn lemma_bounds_contain(s: Seq<Hex>)
    requires
        s.len() > 0,
    ensures
        forall|k: int|
            0 <= k < s.len() ==> hex_norm(
                s[k].x - bounds_center(s).0,
                s[k].y - bounds_center(s).1,
            ) <= bounds_radius(s),
{
    lemma_seq_extremes(s, 0);
    lemma_seq_extremes(s, 1);
    lemma_seq_extremes(s, 2);
    let k0 = choose|k: int| 0 <= k < s.len() && cub(s[k], 0) == seq_max(s, 0);
    assert(cub(s[k0], 0) + cub(s[k0], 1) + cub(s[k0], 2) == 0);
    assert(seq_min(s, 0) <= cub(s[k0], 0) && seq_min(s, 1) <= cub(s[k0], 1) && seq_min(s, 2) <= cub(s[k0], 2));
    assert(seq_max(s, 0) >= cub(s[k0], 0) && seq_max(s, 1) >= cub(s[k0], 1) && seq_max(s, 2) >= cub(s[k0], 2));
    let (cx, cy) = bounds_center(s);
    let r = bounds_radius(s);
    assert forall|k: int| 0 <= k < s.len() implies hex_norm(s[k].x - cx, s[k].y - cy) <= r by {
        assert(seq_min(s, 0) <= cub(s[k], 0) <= seq_max(s, 0));
        assert(seq_min(s, 1) <= cub(s[k], 1) <= seq_max(s, 1));
        assert(seq_min(s, 2) <= cub(s[k], 2) <= seq_max(s, 2));
    }
}

/// No bounds smaller than the computed ones contain every coordinate of `s`:
/// any center `c` with every coordinate of `s` within `rad` steps needs
/// `rad` to be at least the computed radius.
pub proof fn lemma_bounds_minimal(s: Seq<Hex>, c: Hex, rad: int)
    requires
        s.len() > 0,
        forall|k: int| 0 <= k < s.len() ==> #[trigger] s[k].dist(c) <= rad,
    ensures
        bounds_radius(s) <= rad,
{
    lemma_seq_extremes(s, 0);
    lemma_seq_extremes(s, 1);
    lemma_seq_extremes(s, 2);
    assert forall|axis: int| 0 <= axis < 3 implies seq_max(s, axis) <= cub(c, axis) + rad && seq_min(s, axis)
        >= cub(c, axis) - rad by {
        let kmax = choose|k: int| 0 <= k < s.len() && cub(s[k], axis) == seq_max(s, axis);
        let kmin = choose|k: int| 0 <= k < s.len() && cub(s[k], axis) == seq_min(s, axis);
        assert(s[kmax].dist(c) <= rad);
        assert(s[kmin].dist(c) <= rad);
    }
    assert(seq_max(s, 0) <= cub(c, 0) + rad && seq_min(s, 0) >= cub(c, 0) - rad);
    assert(seq_max(s, 1) <= cub(c, 1) + rad && seq_min(s, 1) >= cub(c, 1) - rad);
    assert(seq_max(s, 2) <= cub(c, 2) + rad && seq_min(s, 2) >= cub(c, 2) - rad);
}

/// The bounds computed for coordinates within `r` steps of `c` that include
/// four opposite corners of that hexagon are the hexagon itself: center `c`
/// and radius `r`. This holds of the whole hexagon and of its corners.
#[verifier::spinoff_prover]
#[verifier::rlimit(40)]
pub proof fn lemma_bounds_of_hexagon(s: Seq<Hex>, c: Hex, r: int)
    requires
        range_fits(c, r),
        forall|k: int| 0 <= k < s.len() ==> (#[trigger] s[k]).dist(c) <= r,
        s.contains(Hex { x: (c.x + r) as i32, y: (c.y - r) as i32 }),
        s.contains(Hex { x: (c.x - r) as i32, y: (c.y + r) as i32 }),
        s.contains(Hex { x: c.x, y: (c.y - r) as i32 }),
        s.contains(Hex { x: c.x, y: (c.y + r) as i32 }),
    ensures
        bounds_radius(s) == r,
        bounds_center(s) == (c.x as int, c.y as int),
{
    lemma_seq_extremes(s, 0);
    lemma_seq_extremes(s, 1);
    lemma_seq_extremes(s, 2);
    assert forall|axis: int| 0 <= axis < 3 implies seq_max(s, axis) <= cub(c, axis) + r && seq_min(s, axis)
        >= cub(c, axis) - r by {
        let kmax = choose|k: int| 0 <= k < s.len() && cub(s[k], axis) == seq_max(s, axis);
        let kmin = choose|k: int| 0 <= k < s.len() && cub(s[k], axis) == seq_min(s, axis);
        assert(s[kmax].dist(c) <= r);
        assert(s[kmin].dist(c) <= r);
    }
    let corners = seq![
        Hex { x: (c.x + r) as i32, y: (c.y - r) as i32 },
        Hex { x: (c.x - r) as i32, y: (c.y + r) as i32 },
        Hex { x: c.x, y: (c.y - r) as i32 },
        Hex { x: c.x, y: (c.y + r) as i32 },
    ];
    assert forall|j: int| 0 <= j < 4 implies exists|k: int| 0 <= k < s.len() && s[k] == #[trigger] corners[j] by {
        assert(s.contains(corners[j]));
    }
    let k0 = choose|k: int| 0 <= k < s.len() && s[k] == corners[0];
    let k1 = choose|k: int| 0 <= k < s.len() && s[k] == corners[1];
    let k2 = choose|k: int| 0 <= k < s.len() && s[k] == corners[2];
    let k3 = choose|k: int| 0 <= k < s.len() && s[k] == corners[3];
    assert(cub(s[k0], 0) <= seq_max(s, 0) && cub(s[k1], 0) >= seq_min(s, 0));
    assert(cub(s[k1], 1) <= seq_max(s, 1) && cub(s[k0], 1) >= seq_min(s, 1));
    assert(cub(s[k2], 2) <= seq_max(s, 2) && cub(s[k3], 2) >= seq_min(s, 2));
    assert(seq_max(s, 0) == c.x + r && seq_min(s, 0) == c.x - r);
    assert(seq_max(s, 1) == c.y + r && seq_min(s, 1) == c.y - r);
    assert(seq_max(s, 2) == -c.x - c.y + r && seq_min(s, 2) == -c.x - c.y - r);
    assert((2 * r + 1) / 2 == r);
    assert((3 * r + 2) / 3 == r);
}

/// Every coordinate of the bounds made by [`HexBounds::positive_radius`] is
/// non negative.
pub proof fn lemma_positive_radius(radius: int, h: Hex)
    requires
        0 <= radius <= i32::MAX,
        h.dist(Hex { x: radius as i32, y: radius as i32 }) <= radius,
    ensures
        h.x >= 0,
        h.y >= 0,
{
}

impl HexBounds {
    /// Instantiates new bounds from a `center` and `radius`
    pub fn new(center: Hex, radius: u32) -> (r: Self)
        ensures
            r == (HexBounds { center, radius }),
    {
        HexBounds { center, radius }
    }

    /// Instantiates new bounds from a `radius` at the origin
    pub fn from_radius(radius: u32) -> (r: Self)
        ensures
            r == (HexBounds { center: Hex { x: 0, y: 0 }, radius }),
    {
        HexBounds { center: Hex { x: 0, y: 0 }, radius }
    }

    /// Computes the bounds centered between `min` and `max` (coordinate wise,
    /// rounded towards zero) reaching `max`.
    pub fn from_min_max(min: Hex, max: Hex) -> (r: Self)
        requires
            fits_i32(min.x + max.x),
            fits_i32(min.y + max.y),
            ({
                let c = Hex {
                    x: crate::ops::trunc_div(min.x + max.x, 2) as i32,
                    y: crate::ops::trunc_div(min.y + max.y, 2) as i32,
                };
                &&& c.sub_fits(max)
                &&& c.x - max.x > i32::MIN
                &&& fits_i32(-(c.x - max.x) - (c.y - max.y))
            }),
        ensures
            r.center.x == crate::ops::trunc_div(min.x + max.x, 2),
            r.center.y == crate::ops::trunc_div(min.y + max.y, 2),
            r.radius == r.center.dist(max),
    {
        let center = Hex { x: (min.x + max.x) / 2, y: (min.y + max.y) / 2 };
        let radius = center.unsigned_distance_to(max);
        HexBounds { center, radius }
    }

    /// Computes the bounds of radius `radius` whose coordinates are all non
    /// negative: centered on `(radius, radius)`.
    pub fn positive_radius(radius: u32) -> (r: Self)
        requires
            radius <= i32::MAX,
        ensures
            r == (HexBounds { center: Hex { x: radius as i32, y: radius as i32 }, radius }),
    {
        HexBounds { center: Hex::splat(radius as i32), radius }
    }

    /// Checks if `rhs` is in bounds
    pub fn is_in_bounds(&self, rhs: Hex) -> (r: bool)
        ensures
            r == (self.center.dist(rhs) <= self.radius),
    {
        wide_distance(self.center, rhs) <= self.radius as i64
    }

    /// Returns the number of hexagons in bounds
    pub fn hex_count(&self) -> (r: usize)
        requires
            3 * self.radius * (self.radius + 1) + 1 <= u32::MAX,
        ensures
            r == 3 * self.radius * (self.radius + 1) + 1,
    {
        Hex::range_count(self.radius) as usize
    }

    /// Returns all the coordinates in bounds, ordered by `x` then by `y`.
    pub fn all_coords(self) -> (v: Vec<Hex>)
        requires
            range_fits(self.center, self.radius as int),
        ensures
            v.len() == 3 * self.radius * (self.radius + 1) + 1,
            forall|i: int| 0 <= i < v.len() ==> (#[trigger] v@[i]).dist(self.center) <= self.radius,
            forall|i: int, j: int| 0 <= i < j < v.len() ==> xy_less(#[trigger] v@[i], #[trigger] v@[j]),
            forall|h: Hex| h.dist(self.center) <= self.radius ==> v@.contains(h),
    {
        self.center.range(self.radius)
    }

    /// Computes all coordinates in the intersection between `self` and `rhs`,
    /// ordered by `x` then by `y`.
    pub fn intersecting_with(self, rhs: Self) -> (v: Vec<Hex>)
        requires
            range_fits(self.center, self.radius as int),
            range_fits(rhs.center, rhs.radius as int),
        ensures
            forall|i: int|
                0 <= i < v.len() ==> (#[trigger] v@[i]).dist(self.center) <= self.radius && v@[i].dist(
                    rhs.center,
                ) <= rhs.radius,
            forall|i: int, j: int| 0 <= i < j < v.len() ==> xy_less(#[trigger] v@[i], #[trigger] v@[j]),
            forall|h: Hex| h.dist(self.center) <= self.radius && h.dist(rhs.center) <= rhs.radius ==> v@.contains(h),
    {
        let (start, end) = if self.radius > rhs.radius {
            (rhs, self)
        } else {
            (self, rhs)
        };
        let all = start.all_coords();
        let mut v: Vec<Hex> = Vec::new();
        let mut i: usize = 0;
        while i < all.len()
            invariant
                0 <= i <= all.len(),
                (start == self && end == rhs) || (start == rhs && end == self),
                forall|k: int| 0 <= k < all.len() ==> (#[trigger] all@[k]).dist(start.center) <= start.radius,
                forall|a: int, b: int| 0 <= a < b < all.len() ==> xy_less(#[trigger] all@[a], #[trigger] all@[b]),
                forall|k: int|
                    0 <= k < v.len() ==> (#[trigger] v@[k]).dist(start.center) <= start.radius && v@[k].dist(
                        end.center,
                    ) <= end.radius,
                forall|a: int, b: int| 0 <= a < b < v.len() ==> xy_less(#[trigger] v@[a], #[trigger] v@[b]),
                forall|k: int| 0 <= k < v.len() ==> xy_less(#[trigger] v@[k], all@[i as int]) || i == all.len(),
                forall|m: int|
                    0 <= m < i && (#[trigger] all@[m]).dist(end.center) <= end.radius ==> v@.contains(all@[m]),
            decreases all.len() - i,
        {
            let h = all[i];
            assert(h.dist(start.center) <= start.radius);
            let inside = end.is_in_bounds(h);
            let ghost old_v = v@;
            if inside {
                v.push(h);
                proof {
                    assert(v@[v.len() - 1] == h);
                }
            }
            proof {
                assert forall|k: int| 0 <= k < v.len() implies xy_less(#[trigger] v@[k], all@[i + 1]) || i + 1
                    == all.len() by {
                    if i + 1 < all.len() {
                        assert(xy_less(all@[i as int], all@[i + 1]));
                        if k < old_v.len() {
                            assert(v@[k] == old_v[k]);
                        }
                    }
                }
                assert forall|m: int|
                    0 <= m < i + 1 && (#[trigger] all@[m]).dist(end.center) <= end.radius implies v@.contains(
                    all@[m],
                ) by {
                    if m < i {
                        assert(old_v.contains(all@[m]));
                        let w = choose|w: int| 0 <= w < old_v.len() && old_v[w] == all@[m];
                        assert(v@[w] == all@[m]);
                    } else {
                        assert(v@[v.len() - 1] == all@[m]);
                    }
                }
            }
            i += 1;
        }
        proof {
            assert forall|h: Hex|
                h.dist(self.center) <= self.radius && h.dist(rhs.center) <= rhs.radius implies v@.contains(h) by {
                assert(all@.contains(h));
                let m = choose|m: int| 0 <= m < all.len() && all@[m] == h;
                assert(all@[m].dist(end.center) <= end.radius);
            }
        }
        v
    }

    /// Wraps `coord` into the bounds, returning coordinates relative to the
    /// `center`: those of `coord - center` relative to the center of its chunk
    /// of radius `radius`.
    pub fn wrap_local(&self, coord: Hex) -> (r: Hex)
        requires
            coord.sub_fits(self.center),
            ({
                let (dx, dy) = (coord.x - self.center.x, coord.y - self.center.y);
                let (lx, ly) = lower_spec(dx, dy, self.radius as int);
                &&& lower_fits(dx, dy, self.radius as int)
                &&& higher_fits(lx, ly, self.radius as int)
                &&& fits_i32(dx - higher_x(lx, ly, self.radius as int))
                &&& fits_i32(dy - higher_y(lx, ly, self.radius as int))
            }),
        ensures
            ({
                let (dx, dy) = (coord.x - self.center.x, coord.y - self.center.y);
                let (lx, ly) = lower_spec(dx, dy, self.radius as int);
                r.x == dx - higher_x(lx, ly, self.radius as int) && r.y == dy - higher_y(
                    lx,
                    ly,
                    self.radius as int,
                )
            }),
            r.norm() <= self.radius,
    {
        let local = coord.const_sub(self.center);
        local.wrap_in_range(self.radius)
    }

    /// Wraps `coord` into the bounds, returning global coordinates.
    pub fn wrap(&self, coord: Hex) -> (r: Hex)
        requires
            coord.sub_fits(self.center),
            ({
                let (dx, dy) = (coord.x - self.center.x, coord.y - self.center.y);
                let (lx, ly) = lower_spec(dx, dy, self.radius as int);
                &&& lower_fits(dx, dy, self.radius as int)
                &&& higher_fits(lx, ly, self.radius as int)
                &&& fits_i32(dx - higher_x(lx, ly, self.radius as int))
                &&& fits_i32(dy - higher_y(lx, ly, self.radius as int))
                &&& fits_i32(dx - higher_x(lx, ly, self.radius as int) + self.center.x)
                &&& fits_i32(dy - higher_y(lx, ly, self.radius as int) + self.center.y)
            }),
        ensures
            ({
                let (dx, dy) = (coord.x - self.center.x, coord.y - self.center.y);
                let (lx, ly) = lower_spec(dx, dy, self.radius as int);
                r.x == dx - higher_x(lx, ly, self.radius as int) + self.center.x && r.y == dy - higher_y(
                    lx,
                    ly,
                    self.radius as int,
                ) + self.center.y
            }),
            r.dist(self.center) <= self.radius,
            coord.dist(self.center) <= self.radius ==> r == coord,
            (r.x as int, r.y as int) == bounds_wrap_spec(
                self.center.x as int,
                self.center.y as int,
                self.radius as int,
                coord.x as int,
                coord.y as int,
            ),
    {
        proof {
            crate::resolution::lemma_wrap_idempotent(
                coord.x - self.center.x,
                coord.y - self.center.y,
                self.radius as int,
            );
        }
        self.wrap_local(coord).const_add(self.center)
    }

    /// Returns the 6 corners of the bounds in [`EdgeDirection`] order: the
    /// center moved `radius` steps in each direction.
    pub fn corners(&self) -> (r: [Hex; 6])
        requires
            range_fits(self.center, self.radius as int),
        ensures
            forall|i: int|
                0 <= i < 6 ==> (#[trigger] r[i]).x == self.center.x + self.radius * crate::edge_direction::edge_x(i)
                    && r[i].y == self.center.y + self.radius * crate::edge_direction::edge_y(i),
    {
        let dirs = EdgeDirection::ALL_DIRECTIONS();
        let mut out = [self.center; 6];
        let mut i: usize = 0;
        while i < 6
            invariant
                0 <= i <= 6,
                range_fits(self.center, self.radius as int),
                forall|k: int| 0 <= k < 6 ==> (#[trigger] dirs[k]).idx() == k,
                forall|k: int|
                    0 <= k < i ==> (#[trigger] out[k]).x == self.center.x + self.radius * crate::edge_direction::edge_x(k)
                        && out[k].y == self.center.y + self.radius * crate::edge_direction::edge_y(k),
            decreases 6 - i,
        {
            let d = dirs[i].into_hex();
            proof {
                assert(-self.radius <= d.x * self.radius <= self.radius && -self.radius <= d.y * self.radius
                    <= self.radius) by (nonlinear_arith)
                    requires
                        -1 <= d.x <= 1,
                        -1 <= d.y <= 1,
                ;
            }
            assert(d.x * self.radius == self.radius * crate::edge_direction::edge_x(i as int)) by (nonlinear_arith)
                requires
                    d.x == crate::edge_direction::edge_x(i as int),
            ;
            assert(d.y * self.radius == self.radius * crate::edge_direction::edge_y(i as int)) by (nonlinear_arith)
                requires
                    d.y == crate::edge_direction::edge_y(i as int),
            ;
            out[i] = Hex {
                x: (self.center.x as i64 + d.x as i64 * self.radius as i64) as i32,
                y: (self.center.y as i64 + d.y as i64 * self.radius as i64) as i32,
            };
            i += 1;
        }
        out
    }

    /// Computes the smallest bounds containing all of `hexes`, or bounds of
    /// radius `0` at the origin for no coordinates.
    pub fn from_hexes(hexes: &[Hex]) -> (r: Self)
        requires
            hexes.len() > 0 ==> bounds_fit(hexes@),
        ensures
            hexes.len() == 0 ==> r == (HexBounds { center: Hex { x: 0, y: 0 }, radius: 0 }),
            hexes.len() > 0 ==> r.radius == bounds_radius(hexes@) && (r.center.x as int, r.center.y as int)
                == bounds_center(hexes@),
            forall|i: int| 0 <= i < hexes.len() ==> (#[trigger] hexes@[i]).dist(r.center) <= r.radius,
    {
        if hexes.len() == 0 {
            return Self::from_radius(0);
        }
        let (a0, b0) = axis_extremes(hexes, 0);
        let (a1, b1) = axis_extremes(hexes, 1);
        let (a2, b2) = axis_extremes(hexes, 2);
        proof {
            let s = hexes@;
            lemma_seq_extremes(s, 0);
            lemma_seq_extremes(s, 1);
            lemma_seq_extremes(s, 2);
            assert(cub(s[0], 0) + cub(s[0], 1) + cub(s[0], 2) == 0);
        }
        let (cx, cy, radius) = bounds_of_extremes(a0, a1, a2, b0, b1, b2);
        proof {
            lemma_bounds_contain(hexes@);
        }
        HexBounds { center: Hex { x: cx as i32, y: cy as i32 }, radius: radius as u32 }
    }
}

/// Largest and smallest cubic coordinates on `axis` of the non empty `hexes`.
fn axis_extremes(hexes: &[Hex], axis: usize) -> (r: (i64, i64))
    requires
        hexes.len() > 0,
        axis < 3,
    ensures
        r.0 == seq_max(hexes@, axis as int),
        r.1 == seq_min(hexes@, axis as int),
        -0x1_0000_0000 <= r.0 <= 0x1_0000_0000,
        -0x1_0000_0000 <= r.1 <= 0x1_0000_0000,
{
    let first = hexes[0];
    let v0 = cubic_at(first, axis);
    let mut mx = v0;
    let mut mn = v0;
    let mut i: usize = 1;
    assert(hexes@.subrange(0, 1).len() == 1);
    while i < hexes.len()
        invariant
            1 <= i <= hexes.len(),
            axis < 3,
            mx == seq_max(hexes@.subrange(0, i as int), axis as int),
            mn == seq_min(hexes@.subrange(0, i as int), axis as int),
            -0x1_0000_0000 <= mx <= 0x1_0000_0000,
            -0x1_0000_0000 <= mn <= 0x1_0000_0000,
        decreases hexes.len() - i,
    {
        let h = hexes[i];
        let c = cubic_at(h, axis);
        proof {
            let next = hexes@.subrange(0, i + 1);
            assert(next.drop_last() =~= hexes@.subrange(0, i as int));
            assert(next.last() == h);
        }
        if c > mx {
            mx = c;
        }
        if c < mn {
            mn = c;
        }
        i += 1;
    }
    assert(hexes@.subrange(0, hexes.len() as int) =~= hexes@);
    (mx, mn)
}

/// Cubic coordinate of `h` on `axis`.
fn cubic_at(h: Hex, axis: usize) -> (r: i64)
    requires
        axis < 3,
    ensures
        r == cub(h, axis as int),
        -0x1_0000_0000 <= r <= 0x1_0000_0000,
{
    if axis == 0 {
        h.x as i64
    } else if axis == 1 {
        h.y as i64
    } else {
        -(h.x as i64) - h.y as i64
    }
}

/// Center and radius of the smallest bounds for the given extremes.
fn bounds_of_extremes(a0: i64, a1: i64, a2: i64, b0: i64, b1: i64, b2: i64) -> (r: (i64, i64, i64))
    requires
        -0x1_0000_0000 <= a0 <= 0x1_0000_0000,
        -0x1_0000_0000 <= a1 <= 0x1_0000_0000,
        -0x1_0000_0000 <= a2 <= 0x1_0000_0000,
        -0x1_0000_0000 <= b0 <= 0x1_0000_0000,
        -0x1_0000_0000 <= b1 <= 0x1_0000_0000,
        -0x1_0000_0000 <= b2 <= 0x1_0000_0000,
        b0 <= a0,
        b1 <= a1,
        b2 <= a2,
        a0 + a1 + a2 >= 0,
        b0 + b1 + b2 <= 0,
    ensures
        r.2 == radius_of(a0 as int, a1 as int, a2 as int, b0 as int, b1 as int, b2 as int),
        (r.0 as int, r.1 as int) == center_of(a0 as int, a1 as int, a2 as int, b0 as int, b1 as int, r.2 as int),
{
    let radius = radius_of_extremes(a0, a1, a2, b0, b1, b2);
    let (cx, cy) = center_of_extremes(a0, a1, a2, b0, b1, radius);
    (cx, cy, radius)
}

/// Radius of the smallest bounds for the given extremes.
fn radius_of_extremes(a0: i64, a1: i64, a2: i64, b0: i64, b1: i64, b2: i64) -> (r: i64)
    requires
        -0x1_0000_0000 <= a0 <= 0x1_0000_0000,
        -0x1_0000_0000 <= a1 <= 0x1_0000_0000,
        -0x1_0000_0000 <= a2 <= 0x1_0000_0000,
        -0x1_0000_0000 <= b0 <= 0x1_0000_0000,
        -0x1_0000_0000 <= b1 <= 0x1_0000_0000,
        -0x1_0000_0000 <= b2 <= 0x1_0000_0000,
        b0 <= a0,
        b1 <= a1,
        b2 <= a2,
        a0 + a1 + a2 >= 0,
        b0 + b1 + b2 <= 0,
    ensures
        r == radius_of(a0 as int, a1 as int, a2 as int, b0 as int, b1 as int, b2 as int),
        0 <= r <= 0x1_0000_0001,
        2 * r >= a0 - b0,
        2 * r >= a1 - b1,
        2 * r >= a2 - b2,
        3 * r >= a0 + a1 + a2,
        3 * r >= -(b0 + b1 + b2),
{
    let d0 = a0 - b0;
    let d1 = a1 - b1;
    let d2 = a2 - b2;
    let duo = if d0 >= d1 && d0 >= d2 {
        d0
    } else if d1 >= d2 {
        d1
    } else {
        d2
    };
    let hi = a0 + a1 + a2;
    let lo = -(b0 + b1 + b2);
    let trio = if hi >= lo {
        hi
    } else {
        lo
    };
    let duo_radius = (duo + 1) / 2;
    let trio_radius = (trio + 2) / 3;
    if duo_radius >= trio_radius {
        duo_radius
    } else {
        trio_radius
    }
}

/// Center of the bounds of radius `radius` for the given extremes.
fn center_of_extremes(a0: i64, a1: i64, a2: i64, b0: i64, b1: i64, radius: i64) -> (r: (i64, i64))
    requires
        -0x1_0000_0000 <= a0 <= 0x1_0000_0000,
        -0x1_0000_0000 <= a1 <= 0x1_0000_0000,
        -0x1_0000_0000 <= a2 <= 0x1_0000_0000,
        -0x1_0000_0000 <= b0 <= 0x1_0000_0000,
        -0x1_0000_0000 <= b1 <= 0x1_0000_0000,
        0 <= radius <= 0x1_0000_0001,
        2 * radius >= a0 - b0,
        2 * radius >= a1 - b1,
        3 * radius >= a0 + a1 + a2,
    ensures
        (r.0 as int, r.1 as int) == center_of(a0 as int, a1 as int, a2 as int, b0 as int, b1 as int, radius as int),
{
    let min0 = a0 - radius;
    let min1 = a1 - radius;
    let min2 = a2 - radius;
    let max0 = b0 + radius;
    let max1 = b1 + radius;
    let sum = min0 + min1 + min2;
    if -sum > max0 - min0 {
        let sum2 = sum + (max0 - min0);
        if -sum2 > max1 - min1 {
            (max0, max1)
        } else {
            (max0, min1 - sum2)
        }
    } else {
        (min0 - sum, min1)
    }
}

} // verus!
