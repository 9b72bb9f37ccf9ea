//! Hexagonal chunks: coordinates of the chunk of a given radius containing a
//! coordinate, center of a chunk, and coordinates relative to that center.
use crate::hex::{fits_i32, hex_norm, Hex};
use crate::hex_map::{lattice_x, lattice_y, lemma_mirror_reduces, mirror_a, mirror_b, mirror_x, mirror_y};
use vstd::prelude::*;

verus! {

/// Number of coordinates in a chunk of radius `r`.
pub open spec fn chunk_area(r: int) -> int {
    3 * r * (r + 1) + 1
}

/// `x` coordinate of the center of chunk `(x, y)` of radius `r`, in the
/// coordinates of the finer grid.
pub open spec fn higher_x(x: int, y: int, r: int) -> int {
    x * (r + 1) - r * (-x - y)
}

/// `y` coordinate of the center of chunk `(x, y)` of radius `r`, in the
/// coordinates of the finer grid.
pub open spec fn higher_y(x: int, y: int, r: int) -> int {
    y * (r + 1) - r * x
}

/// Every intermediate value of the computation of the center of chunk
/// `(x, y)` of radius `r` is representable.
pub open spec fn higher_fits(x: int, y: int, r: int) -> bool {
    &&& r <= i32::MAX - 1
    &&& fits_i32(-x - y)
    &&& fits_i32(x * (r + 1))
    &&& fits_i32(y * (r + 1))
    &&& fits_i32(r * (-x - y))
    &&& fits_i32(r * x)
    &&& fits_i32(higher_x(x, y, r))
    &&& fits_i32(higher_y(x, y, r))
}

/// The three cubic "hexmod" quotients of `(x, y)` for chunks of radius `r`,
/// each the floor of a cubic coordinate plus `3 * r + 2` times the previous
/// one, divided by the chunk area.
pub open spec fn lower_a(x: int, y: int, r: int) -> int {
    (y + (3 * r + 2) * x) / chunk_area(r)
}

/// See [`lower_a`].
pub open spec fn lower_b(x: int, y: int, r: int) -> int {
    ((-x - y) + (3 * r + 2) * y) / chunk_area(r)
}

/// See [`lower_a`].
pub open spec fn lower_c(x: int, y: int, r: int) -> int {
    (x + (3 * r + 2) * (-x - y)) / chunk_area(r)
}

/// Coordinates of the chunk of radius `r` containing `(x, y)`.
pub open spec fn lower_spec(x: int, y: int, r: int) -> (int, int) {
    (
        (1 + lower_a(x, y, r) - lower_b(x, y, r)) / 3,
        (1 + lower_b(x, y, r) - lower_c(x, y, r)) / 3,
    )
}

/// Every intermediate value of the computation of the chunk of radius `r`
/// containing `(x, y)` is representable.
pub open spec fn lower_fits(x: int, y: int, r: int) -> bool {
    &&& chunk_area(r) <= u32::MAX
    &&& fits_i32(-x - y)
    &&& fits_i32((3 * r + 2) * x)
    &&& fits_i32((3 * r + 2) * y)
    &&& fits_i32((3 * r + 2) * (-x - y))
    &&& fits_i32(y + (3 * r + 2) * x)
    &&& fits_i32((-x - y) + (3 * r + 2) * y)
    &&& fits_i32(x + (3 * r + 2) * (-x - y))
}

/// Floor of `n / d` for a positive `d`.
fn floor_div(n: i64, d: i64) -> (q: i64)
    requires
        d > 0,
        n > i64::MIN,
    ensures
        q == n / d,
{
    proof {
        lemma_floor_div_bounds(n as int, d as int);
    }
    n.checked_div_euclid(d).unwrap()
}

/// Absolute value of an integer.
spec fn iabs_int(v: int) -> int {
    if v < 0 {
        -v
    } else {
        v
    }
}

/// The floor of `n / d` lies between `-|n|` and `|n|`.
proof fn lemma_floor_div_bounds(n: int, d: int)
    requires
        d > 0,
    ensures
        -iabs_int(n) <= n / d <= iabs_int(n),
{
    vstd::arithmetic::div_mod::lemma_fundamental_div_mod(n, d);
    vstd::arithmetic::div_mod::lemma_mod_bound(n, d);
    if n >= 0 {
        vstd::arithmetic::div_mod::lemma_div_pos_is_pos(n, d);
        vstd::arithmetic::div_mod::lemma_div_is_ordered_by_denominator(n, 1, d);
    } else {
        let q = n / d;
        let m = n % d;
        assert(q < 0) by {
            if q >= 0 {
                assert(d * q >= 0) by (nonlinear_arith)
                    requires
                        d > 0,
                        q >= 0,
                ;
            }
        }
        assert(q >= n) by (nonlinear_arith)
            requires
                d > 0,
                n < 0,
                n == d * q + m,
                0 <= m < d,
                q < 0,
        ;
    }
}

impl Hex {
    /// Computes the center of `self`, taken as the coordinates of a chunk of
    /// radius `radius`, in the coordinates of the finer grid.
    pub fn to_higher_res(self, radius: u32) -> (r: Self)
        requires
            higher_fits(self.x as int, self.y as int, radius as int),
        ensures
            r.x == higher_x(self.x as int, self.y as int, radius as int),
            r.y == higher_y(self.x as int, self.y as int, radius as int),
    {
        let range = radius as i32;
        let x = self.x;
        let y = self.y;
        let z = (-(x as i64) - y as i64) as i32;
        Self::new(x * (range + 1) - range * z, y * (range + 1) - range * x)
    }

    /// Computes the coordinates of the chunk of radius `radius` containing
    /// `self`. The chunks tile the grid: each is an hexagonal range of
    /// `radius` around its center (see [`Hex::to_higher_res`]).
    pub fn to_lower_res(self, radius: u32) -> (r: Self)
        requires
            lower_fits(self.x as int, self.y as int, radius as int),
        ensures
            (r.x as int, r.y as int) == lower_spec(self.x as int, self.y as int, radius as int),
    {
        let ghost (gx, gy, gr) = (self.x as int, self.y as int, radius as int);
        proof {
            assert(3 * radius + 2 <= i32::MAX) by (nonlinear_arith)
                requires
                    radius >= 0,
                    3 * radius * (radius + 1) + 1 <= u32::MAX,
            ;
        }
        let x = self.x;
        let y = self.y;
        let z = (-(x as i64) - y as i64) as i32;
        let area = (3 * radius as i64) * (radius as i64 + 1) + 1;
        let shift = (3 * radius + 2) as i32;
        let a = floor_div((y + shift * x) as i64, area);
        let b = floor_div((z + shift * y) as i64, area);
        let c = floor_div((x + shift * z) as i64, area);
        proof {
            lemma_floor_div_bounds((y + shift * x) as int, area as int);
            lemma_floor_div_bounds((z + shift * y) as int, area as int);
            lemma_floor_div_bounds((x + shift * z) as int, area as int);
        }
        let rx = floor_div(1 + a - b, 3);
        let ry = floor_div(1 + b - c, 3);
        proof {
            lemma_floor_div_bounds(1 + a - b, 3);
            lemma_floor_div_bounds(1 + b - c, 3);
        }
        Self::new(rx as i32, ry as i32)
    }

    /// Computes the coordinates of `self` relative to the center of the chunk
    /// of radius `radius` containing it.
    pub fn to_local(self, radius: u32) -> (r: Self)
        requires
            lower_fits(self.x as int, self.y as int, radius as int),
            higher_fits(
                lower_spec(self.x as int, self.y as int, radius as int).0,
                lower_spec(self.x as int, self.y as int, radius as int).1,
                radius as int,
            ),
            ({
                let (lx, ly) = lower_spec(self.x as int, self.y as int, radius as int);
                fits_i32(self.x - higher_x(lx, ly, radius as int)) && fits_i32(
                    self.y - higher_y(lx, ly, radius as int),
                )
            }),
        ensures
            ({
                let (lx, ly) = lower_spec(self.x as int, self.y as int, radius as int);
                r.x == self.x - higher_x(lx, ly, radius as int) && r.y == self.y - higher_y(
                    lx,
                    ly,
                    radius as int,
                )
            }),
            r.norm() <= radius,
    {
        proof {
            lemma_local_in_range(self.x as int, self.y as int, radius as int);
        }
        let upscale = self.to_lower_res(radius);
        let center = upscale.to_higher_res(radius);
        self.const_sub(center)
    }

    /// Wraps `self` in an hexagonal range of radius `range` around the origin,
    /// for seamless *wraparound* hexagonal maps: the coordinates of `self`
    /// relative to the center of its chunk of radius `range`.
    pub fn wrap_in_range(self, range: u32) -> (r: Self)
        requires
            lower_fits(self.x as int, self.y as int, range as int),
            higher_fits(
                lower_spec(self.x as int, self.y as int, range as int).0,
                lower_spec(self.x as int, self.y as int, range as int).1,
                range as int,
            ),
            ({
                let (lx, ly) = lower_spec(self.x as int, self.y as int, range as int);
                fits_i32(self.x - higher_x(lx, ly, range as int)) && fits_i32(
                    self.y - higher_y(lx, ly, range as int),
                )
            }),
        ensures
            ({
                let (lx, ly) = lower_spec(self.x as int, self.y as int, range as int);
                r.x == self.x - higher_x(lx, ly, range as int) && r.y == self.y - higher_y(
                    lx,
                    ly,
                    range as int,
                )
            }),
            r.norm() <= range,
            self.norm() <= range ==> r == self,
            (r.x as int, r.y as int) == local_spec(self.x as int, self.y as int, range as int),
    {
        proof {
            lemma_wrap_idempotent(self.x as int, self.y as int, range as int);
        }
        self.to_local(range)
    }
}

/// Going to the finer grid is linear: the center of the sum of two chunk
/// coordinates is the sum of their centers, the origin stays the origin, and
/// the centers of neighboring chunks are `2 * r + 1` steps apart.
pub proof fn lemma_higher_res_linear(ax: int, ay: int, bx: int, by: int, r: int, k: int)
    requires
        r >= 0,
        0 <= k < 6,
    ensures
        higher_x(ax + bx, ay + by, r) == higher_x(ax, ay, r) + higher_x(bx, by, r),
        higher_y(ax + bx, ay + by, r) == higher_y(ax, ay, r) + higher_y(bx, by, r),
        higher_x(0, 0, r) == 0,
        higher_y(0, 0, r) == 0,
        hex_norm(
            higher_x(crate::hex::neighbor_x(k), crate::hex::neighbor_y(k), r),
            higher_y(crate::hex::neighbor_x(k), crate::hex::neighbor_y(k), r),
        ) == 2 * r + 1,
{
    assert(higher_x(ax + bx, ay + by, r) == higher_x(ax, ay, r) + higher_x(bx, by, r)) by (nonlinear_arith);
    assert(higher_y(ax + bx, ay + by, r) == higher_y(ax, ay, r) + higher_y(bx, by, r)) by (nonlinear_arith);
    assert(higher_x(0, 0, r) == 0 && higher_y(0, 0, r) == 0) by (nonlinear_arith);
    assert(r * 1 == r && r * -1 == -r && r * 0 == 0 && (r + 1) * 1 == r + 1 && (r + 1) * -1 == -r - 1 && (r
        + 1) * 0 == 0);
    assert(1 * (r + 1) == r + 1 && -1 * (r + 1) == -r - 1 && 0 * (r + 1) == 0);
}

/// Coordinates of `(x, y)` relative to the center of its chunk of radius
/// `r`: what [`Hex::to_local`] and [`Hex::wrap_in_range`] compute.
pub open spec fn local_spec(x: int, y: int, r: int) -> (int, int) {
    let (lx, ly) = lower_spec(x, y, r);
    (x - higher_x(lx, ly, r), y - higher_y(lx, ly, r))
}

/// Wrapping is idempotent: coordinates within `r` steps of the origin are
/// their own local coordinates, so wrapping wrapped coordinates changes
/// nothing.
pub proof fn lemma_wrap_idempotent(x: int, y: int, r: int)
    requires
        r >= 0,
    ensures
        hex_norm(local_spec(x, y, r).0, local_spec(x, y, r).1) <= r,
        hex_norm(x, y) <= r ==> local_spec(x, y, r) == (x, y),
        local_spec(local_spec(x, y, r).0, local_spec(x, y, r).1, r) == local_spec(x, y, r),
{
    assert(higher_x(0, 0, r) == 0 && higher_y(0, 0, r) == 0) by (nonlinear_arith);
    lemma_local_in_range(x, y, r);
    let (wx, wy) = local_spec(x, y, r);
    lemma_lower_of_near(0, 0, wx, wy, r);
    assert(higher_x(0, 0, r) + wx == wx && higher_y(0, 0, r) + wy == wy);
    if hex_norm(x, y) <= r {
        lemma_lower_of_near(0, 0, x, y, r);
        assert(higher_x(0, 0, r) + x == x && higher_y(0, 0, r) + y == y);
    }
}

/// The chunk containing the center of chunk `(x, y)` is `(x, y)` itself: going
/// to the finer grid and back is the identity.
pub proof fn lemma_lower_of_higher(x: int, y: int, r: int)
    requires
        r >= 0,
    ensures
        lower_spec(higher_x(x, y, r), higher_y(x, y, r), r) == (x, y),
{
    lemma_lower_of_near(x, y, 0, 0, r);
    assert(higher_x(x, y, r) + 0 == higher_x(x, y, r) && higher_y(x, y, r) + 0 == higher_y(x, y, r));
}

/// Every coordinate lies within `r` steps of the center of some chunk of
/// radius `r`: the chunks cover the grid.
pub proof fn lemma_chunks_cover(x: int, y: int, r: int) -> (c: (int, int))
    requires
        r >= 0,
    ensures
        hex_norm(x - higher_x(c.0, c.1, r), y - higher_y(c.0, c.1, r)) <= r,
    decreases hex_norm(x, y),
{
    if hex_norm(x, y) <= r {
        assert(higher_x(0, 0, r) == 0 && higher_y(0, 0, r) == 0) by (nonlinear_arith);
        (0, 0)
    } else {
        let k = lemma_mirror_reduces(x, y, r);
        let (mx, my) = (mirror_x(r, k), mirror_y(r, k));
        let (px, py) = lemma_chunks_cover(x - mx, y - my, r);
        let (kx, ky) = (mirror_a(k), mirror_b(k) - mirror_a(k));
        assert(higher_x(px + kx, py + ky, r) == higher_x(px, py, r) + higher_x(kx, ky, r)) by (nonlinear_arith);
        assert(higher_y(px + kx, py + ky, r) == higher_y(px, py, r) + higher_y(kx, ky, r)) by (nonlinear_arith);
        assert(higher_x(kx, ky, r) == mx && higher_y(kx, ky, r) == my) by (nonlinear_arith)
            requires
                0 <= k < 6,
                kx == mirror_a(k),
                ky == mirror_b(k) - mirror_a(k),
                mx == mirror_x(r, k),
                my == mirror_y(r, k),
        ;
        (px + kx, py + ky)
    }
}

/// The three hexmod numerators of a coordinate offset by `(dx, dy)` from the
/// center of chunk `(cx, cy)` split into a multiple of the chunk area and the
/// numerators of the offset.
proof fn lemma_hexmod_identities(cx: int, cy: int, dx: int, dy: int, r: int)
    ensures
        ({
            let a = chunk_area(r);
            let s = 3 * r + 2;
            let hx = higher_x(cx, cy, r) + dx;
            let hy = higher_y(cx, cy, r) + dy;
            let hz = -hx - hy;
            let dz = -dx - dy;
            &&& hy + s * hx == a * (2 * cx + cy) + (dy + s * dx)
            &&& hz + s * hy == a * (cy - cx) + (dz + s * dy)
            &&& hx + s * hz == a * (-cx - 2 * cy) + (dx + s * dz)
        }),
{
    lemma_hexmod_identity_a(cx, cy, dx, dy, r);
    lemma_hexmod_identity_b(cx, cy, dx, dy, r);
    lemma_hexmod_identity_c(cx, cy, dx, dy, r);
}

proof fn lemma_hexmod_identity_a(cx: int, cy: int, dx: int, dy: int, r: int)
    by (nonlinear_arith)
    ensures
        (cy * (r + 1) - r * cx + dy) + (3 * r + 2) * (cx * (r + 1) - r * (-cx - cy) + dx) == (3 * r * (r + 1)
            + 1) * (2 * cx + cy) + (dy + (3 * r + 2) * dx),
{
}

proof fn lemma_hexmod_identity_b(cx: int, cy: int, dx: int, dy: int, r: int)
    by (nonlinear_arith)
    ensures
        (-(cx * (r + 1) - r * (-cx - cy) + dx) - (cy * (r + 1) - r * cx + dy)) + (3 * r + 2) * (cy * (r + 1)
            - r * cx + dy) == (3 * r * (r + 1) + 1) * (cy - cx) + ((-dx - dy) + (3 * r + 2) * dy),
{
}

proof fn lemma_hexmod_identity_c(cx: int, cy: int, dx: int, dy: int, r: int)
    by (nonlinear_arith)
    ensures
        (cx * (r + 1) - r * (-cx - cy) + dx) + (3 * r + 2) * (-(cx * (r + 1) - r * (-cx - cy) + dx) - (cy * (
        r + 1) - r * cx + dy)) == (3 * r * (r + 1) + 1) * (-cx - 2 * cy) + (dx + (3 * r + 2) * (-dx - dy)),
{
}

/// `n` lies in `k * a - a < n < k * a + a`: its floor division by `a` is
/// `k - 1` or `k`.
proof fn lemma_floor_near(n: int, k: int, a: int)
    requires
        a > 0,
        k * a - a < n < k * a + a,
    ensures
        n / a == k || n / a == k - 1,
{
    vstd::arithmetic::div_mod::lemma_fundamental_div_mod(n, a);
    vstd::arithmetic::div_mod::lemma_mod_bound(n, a);
    let q = n / a;
    assert(q == k || q == k - 1) by (nonlinear_arith)
        requires
            a > 0,
            k * a - a < n < k * a + a,
            n == a * q + n % a,
            0 <= n % a < a,
    ;
}

/// A coordinate within `r` steps of the center of chunk `(cx, cy)` belongs
/// to that chunk.
pub proof fn lemma_lower_of_near(cx: int, cy: int, dx: int, dy: int, r: int)
    requires
        r >= 0,
        hex_norm(dx, dy) <= r,
    ensures
        lower_spec(higher_x(cx, cy, r) + dx, higher_y(cx, cy, r) + dy, r) == (cx, cy),
{
    let a = chunk_area(r);
    let s = 3 * r + 2;
    let hx = higher_x(cx, cy, r) + dx;
    let hy = higher_y(cx, cy, r) + dy;
    let hz = -hx - hy;
    let dz = -dx - dy;
    assert(a > 0) by (nonlinear_arith)
        requires
            r >= 0,
            a == 3 * r * (r + 1) + 1,
    ;
    lemma_hexmod_identities(cx, cy, dx, dy, r);
    assert(-a < dy + s * dx < a && -a < dz + s * dy < a && -a < dx + s * dz < a) by (nonlinear_arith)
        requires
            -r <= dx <= r,
            -r <= dy <= r,
            -r <= dz <= r,
            dz == -dx - dy,
            s == 3 * r + 2,
            a == 3 * r * (r + 1) + 1,
            r >= 0,
    ;
    assert((2 * cx + cy) * a - a < hy + s * hx < (2 * cx + cy) * a + a) by (nonlinear_arith)
        requires
            hy + s * hx == a * (2 * cx + cy) + (dy + s * dx),
            -a < dy + s * dx < a,
    ;
    assert((cy - cx) * a - a < hz + s * hy < (cy - cx) * a + a) by (nonlinear_arith)
        requires
            hz + s * hy == a * (cy - cx) + (dz + s * dy),
            -a < dz + s * dy < a,
    ;
    assert((-cx - 2 * cy) * a - a < hx + s * hz < (-cx - 2 * cy) * a + a) by (nonlinear_arith)
        requires
            hx + s * hz == a * (-cx - 2 * cy) + (dx + s * dz),
            -a < dx + s * dz < a,
    ;
    lemma_floor_near(hy + s * hx, 2 * cx + cy, a);
    lemma_floor_near(hz + s * hy, cy - cx, a);
    lemma_floor_near(hx + s * hz, -cx - 2 * cy, a);
    let la = lower_a(hx, hy, r);
    let lb = lower_b(hx, hy, r);
    let lc = lower_c(hx, hy, r);
    assert(la == (hy + s * hx) / a);
    assert(lb == (hz + s * hy) / a);
    assert(lc == (hx + s * hz) / a);
    let ea = la - (2 * cx + cy);
    let eb = lb - (cy - cx);
    let ec = lc - (-cx - 2 * cy);
    assert(1 + la - lb == 3 * cx + (1 + ea - eb));
    assert(1 + lb - lc == 3 * cy + (1 + eb - ec));
    assert(0 <= 1 + ea - eb < 3 && 0 <= 1 + eb - ec < 3);
    vstd::arithmetic::div_mod::lemma_fundamental_div_mod_converse(1 + la - lb, 3, cx, 1 + ea - eb);
    vstd::arithmetic::div_mod::lemma_fundamental_div_mod_converse(1 + lb - lc, 3, cy, 1 + eb - ec);
}

/// The coordinates relative to the center of their chunk of radius `r` are at
/// most `r` steps away from it: [`Hex::to_local`] and [`Hex::wrap_in_range`]
/// stay within the range.
pub proof fn lemma_local_in_range(x: int, y: int, r: int)
    requires
        r >= 0,
    ensures
        ({
            let (lx, ly) = lower_spec(x, y, r);
            hex_norm(x - higher_x(lx, ly, r), y - higher_y(lx, ly, r)) <= r
        }),
{
    let (cx, cy) = lemma_chunks_cover(x, y, r);
    let dx = x - higher_x(cx, cy, r);
    let dy = y - higher_y(cx, cy, r);
    lemma_lower_of_near(cx, cy, dx, dy, r);
    assert(higher_x(cx, cy, r) + dx == x && higher_y(cx, cy, r) + dy == y);
}

/// The chunk tiling and the wraparound mirrors agree: any coordinates
/// `(wx, wy)` within `r` steps of the origin that differ from `(x, y)` by a
/// combination of mirrors are the coordinates of `(x, y)` relative to the
/// center of its chunk. In particular the wrapped coordinates are unique.
pub proof fn lemma_wrap_unique(x: int, y: int, r: int, a: int, b: int, wx: int, wy: int)
    requires
        r >= 0,
        hex_norm(wx, wy) <= r,
        x - wx == lattice_x(a, b, r),
        y - wy == lattice_y(a, b, r),
    ensures
        ({
            let (lx, ly) = lower_spec(x, y, r);
            wx == x - higher_x(lx, ly, r) && wy == y - higher_y(lx, ly, r)
        }),
{
    assert(lattice_x(a, b, r) == higher_x(a, b - a, r) && lattice_y(a, b, r) == higher_y(a, b - a, r))
        by (nonlinear_arith);
    lemma_lower_of_near(a, b - a, wx, wy, r);
    assert(higher_x(a, b - a, r) + wx == x && higher_y(a, b - a, r) + wy == y);
}

} // verus!
