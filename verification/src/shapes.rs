//! Rings, spirals, ranges and wedges of coordinates around a center.
use crate::direction::{DiagonalDirection, Direction};
use crate::hex::{fits_i32, hex_norm, iabs, neighbor_x, neighbor_y, way_args_fit, way_spec, Hex};
use vstd::prelude::*;

verus! {

/// Every coordinate within `r` steps of `c` is representable: each of its
/// axial coordinates stays within `r` of the center's.
pub open spec fn range_fits(c: Hex, r: int) -> bool {
    &&& r >= 0
    &&& i32::MIN <= c.x - r
    &&& c.x + r <= i32::MAX
    &&& i32::MIN <= c.y - r
    &&& c.y + r <= i32::MAX
}

/// Number of coordinates in a ring of radius `r`: `6 * r`, or `1` for the
/// center alone.
pub open spec fn ring_count_spec(r: int) -> int {
    if r == 0 {
        1
    } else {
        6 * r
    }
}

/// Position (in [`Direction`] order) of the corner of side `k` of a ring
/// whose first corner is at position `s`, walked counter clockwise or
/// clockwise.
pub open spec fn ring_corner(s: int, cw: bool, k: int) -> int {
    if cw {
        (s - k) % 6
    } else {
        (s + k) % 6
    }
}

/// Position of the direction followed along side `k` of the ring.
pub open spec fn ring_side(s: int, cw: bool, k: int) -> int {
    if cw {
        (ring_corner(s, cw, k) + 4) % 6
    } else {
        (ring_corner(s, cw, k) + 2) % 6
    }
}

/// `x` offset from the center of the `i`-th coordinate of a ring of radius
/// `r > 0`: `r` steps towards the corner of side `i / r`, then `i % r` steps
/// along that side.
pub open spec fn ring_offset_x(r: int, s: int, cw: bool, i: int) -> int {
    r * neighbor_x(ring_corner(s, cw, i / r)) + (i % r) * neighbor_x(ring_side(s, cw, i / r))
}

/// `y` offset, see [`ring_offset_x`].
pub open spec fn ring_offset_y(r: int, s: int, cw: bool, i: int) -> int {
    r * neighbor_y(ring_corner(s, cw, i / r)) + (i % r) * neighbor_y(ring_side(s, cw, i / r))
}

/// The `i`-th coordinate of the ring of radius `r` around `c`, starting in
/// the direction at position `s`.
pub open spec fn ring_hex(c: Hex, r: int, s: int, cw: bool, i: int) -> Hex {
    if r == 0 {
        c
    } else {
        Hex { x: (c.x + ring_offset_x(r, s, cw, i)) as i32, y: (c.y + ring_offset_y(r, s, cw, i)) as i32 }
    }
}

/// The whole ring of radius `r` around `c`, as a sequence.
pub open spec fn ring_seq(c: Hex, r: int, s: int, cw: bool) -> Seq<Hex> {
    Seq::new(ring_count_spec(r) as nat, |i: int| ring_hex(c, r, s, cw, i))
}

/// Walking `r` steps towards corner `a` and then `t <= r` steps along the
/// side that follows it stays exactly `r` steps away from the start, and each
/// axial coordinate moves by at most `r`.
pub proof fn lemma_ring_step(r: int, t: int, a: int, cw: bool)
    requires
        0 <= t <= r,
        0 <= a < 6,
    ensures
        ({
            let b = if cw { (a + 4) % 6 } else { (a + 2) % 6 };
            let dx = r * neighbor_x(a) + t * neighbor_x(b);
            let dy = r * neighbor_y(a) + t * neighbor_y(b);
            &&& -r <= dx <= r
            &&& -r <= dy <= r
            &&& hex_norm(dx, dy) == r
        }),
{
    let b = if cw { (a + 4) % 6 } else { (a + 2) % 6 };
    assert(0 <= b < 6);
    assert(r * 1 == r && r * -1 == -r && r * 0 == 0);
    assert(t * 1 == t && t * -1 == -t && t * 0 == 0);
}

/// Every coordinate of a ring of radius `r` around `c` is exactly `r` steps
/// away from `c`.
pub proof fn lemma_ring_distance(c: Hex, r: int, s: int, cw: bool, i: int)
    requires
        range_fits(c, r),
        0 <= i < ring_count_spec(r),
    ensures
        ring_hex(c, r, s, cw, i).dist(c) == r,
{
    if r > 0 {
        let k = i / r;
        let t = i % r;
        vstd::arithmetic::div_mod::lemma_mod_bound(i, r);
        lemma_ring_step(r, t, ring_corner(s, cw, k), cw);
    }
}

/// The rings of radius `0 .. n` around `c`, one after the other.
pub open spec fn spiral_seq(c: Hex, n: int, s: int, cw: bool) -> Seq<Hex>
    decreases n,
{
    if n <= 0 {
        Seq::empty()
    } else {
        spiral_seq(c, n - 1, s, cw) + ring_seq(c, n - 1, s, cw)
    }
}

/// Position of the first corner of the ring edge facing the diagonal at
/// position `d`: the edge is walked from that corner to the next one.
pub open spec fn edge_corner(d: int, cw: bool) -> int {
    if cw {
        d
    } else {
        (d + 5) % 6
    }
}

/// Position of the direction followed along the ring edge facing the
/// diagonal at position `d`.
pub open spec fn edge_side(d: int, cw: bool) -> int {
    if cw {
        (d + 4) % 6
    } else {
        (d + 1) % 6
    }
}

/// The `i`-th coordinate of the ring edge of radius `r` around `c` facing the
/// diagonal at position `d`.
pub open spec fn edge_hex(c: Hex, r: int, d: int, cw: bool, i: int) -> Hex {
    Hex {
        x: (c.x + r * neighbor_x(edge_corner(d, cw)) + i * neighbor_x(edge_side(d, cw))) as i32,
        y: (c.y + r * neighbor_y(edge_corner(d, cw)) + i * neighbor_y(edge_side(d, cw))) as i32,
    }
}

/// The `r + 1` coordinates of the ring edge of radius `r` around `c` facing
/// the diagonal at position `d`.
pub open spec fn edge_seq(c: Hex, r: int, d: int, cw: bool) -> Seq<Hex> {
    Seq::new((r + 1) as nat, |i: int| edge_hex(c, r, d, cw, i))
}

/// The ring edges of the given radii, one after the other.
pub open spec fn wedge_seq(c: Hex, ranges: Seq<u32>, d: int, cw: bool) -> Seq<Hex>
    decreases ranges.len(),
{
    if ranges.len() == 0 {
        Seq::empty()
    } else {
        wedge_seq(c, ranges.drop_last(), d, cw) + edge_seq(c, ranges.last() as int, d, cw)
    }
}

/// The ring edges of radius `0 .. n`, one after the other.
pub open spec fn full_wedge_seq(c: Hex, n: int, d: int, cw: bool) -> Seq<Hex>
    decreases n,
{
    if n <= 0 {
        Seq::empty()
    } else {
        full_wedge_seq(c, n - 1, d, cw) + edge_seq(c, n - 1, d, cw)
    }
}

/// Number of coordinates in the ring edges of radius `0 ..= r`.
pub open spec fn wedge_count_spec(r: int) -> int {
    r * (r + 3) / 2 + 1
}

/// Every coordinate of a ring edge of radius `r` around `c` is exactly `r`
/// steps away from `c`.
pub proof fn lemma_edge_distance(c: Hex, r: int, d: int, cw: bool, i: int)
    requires
        range_fits(c, r),
        0 <= d < 6,
        0 <= i <= r,
    ensures
        edge_hex(c, r, d, cw, i).dist(c) == r,
{
    lemma_ring_step(r, i, edge_corner(d, cw), cw);
}

/// Walking a ring edge the other way round lists the same coordinates in
/// reverse order: the `i`-th coordinate of the counter clockwise edge is the
/// `r - i`-th of the clockwise one.
pub proof fn lemma_edge_reversed(c: Hex, r: int, d: int, i: int)
    requires
        0 <= d < 6,
        0 <= i <= r,
    ensures
        edge_hex(c, r, d, false, i) == edge_hex(c, r, d, true, r - i),
        edge_seq(c, r, d, false) == edge_seq(c, r, d, true).reverse(),
{
    assert(r * 1 == r && r * -1 == -r && r * 0 == 0);
    assert((r - i) * 1 == r - i && (r - i) * -1 == i - r && (r - i) * 0 == 0);
    assert(i * 1 == i && i * -1 == -i && i * 0 == 0);
    assert forall|j: int| 0 <= j <= r implies edge_hex(c, r, d, false, j) == edge_hex(c, r, d, true, r - j) by {
        assert((r - j) * 1 == r - j && (r - j) * -1 == j - r && (r - j) * 0 == 0);
        assert(j * 1 == j && j * -1 == -j && j * 0 == 0);
    }
    assert(edge_seq(c, r, d, false) =~= edge_seq(c, r, d, true).reverse());
}

/// Consecutive coordinates of a ring edge are neighbors.
pub proof fn lemma_edge_steps(c: Hex, r: int, d: int, cw: bool, i: int)
    requires
        range_fits(c, r),
        0 <= d < 6,
        0 <= i < r,
    ensures
        edge_hex(c, r, d, cw, i + 1).dist(edge_hex(c, r, d, cw, i)) == 1,
{
    lemma_ring_step(r, i, edge_corner(d, cw), cw);
    lemma_ring_step(r, i + 1, edge_corner(d, cw), cw);
    assert(i * 1 == i && i * -1 == -i && i * 0 == 0);
    assert((i + 1) * 1 == i + 1 && (i + 1) * -1 == -i - 1 && (i + 1) * 0 == 0);
}

/// A ring edge holds no coordinate twice.
pub proof fn lemma_edge_no_duplicates(c: Hex, r: int, d: int, cw: bool)
    requires
        range_fits(c, r),
        0 <= d < 6,
    ensures
        edge_seq(c, r, d, cw).no_duplicates(),
{
    let e = edge_seq(c, r, d, cw);
    assert forall|i: int, j: int| 0 <= i < e.len() && 0 <= j < e.len() && i != j implies e[i] != e[j] by {
        lemma_ring_step(r, i, edge_corner(d, cw), cw);
        lemma_ring_step(r, j, edge_corner(d, cw), cw);
        assert(i * 1 == i && i * -1 == -i && i * 0 == 0);
        assert(j * 1 == j && j * -1 == -j && j * 0 == 0);
    }
}

/// The ring edges of radius `0 .. n` hold no coordinate twice, and each of
/// their coordinates is less than `n` steps away from `c`.
pub proof fn lemma_full_wedge_no_duplicates(c: Hex, n: int, d: int, cw: bool)
    requires
        n >= 1,
        range_fits(c, n - 1),
        0 <= d < 6,
    ensures
        full_wedge_seq(c, n, d, cw).no_duplicates(),
        forall|i: int|
            0 <= i < full_wedge_seq(c, n, d, cw).len() ==> (#[trigger] full_wedge_seq(c, n, d, cw)[i]).dist(c) < n,
    decreases n,
{
    if n > 0 {
        let front = full_wedge_seq(c, n - 1, d, cw);
        let edge = edge_seq(c, n - 1, d, cw);
        let s = full_wedge_seq(c, n, d, cw);
        assert(s == front + edge);
        if n > 1 {
            lemma_full_wedge_no_duplicates(c, n - 1, d, cw);
        } else {
            assert(front.len() == 0);
        }
        lemma_edge_no_duplicates(c, n - 1, d, cw);
        assert forall|j: int| 0 <= j < edge.len() implies (#[trigger] edge[j]).dist(c) == n - 1 by {
            lemma_edge_distance(c, n - 1, d, cw, j);
        }
        assert forall|i: int| 0 <= i < s.len() implies (#[trigger] s[i]).dist(c) < n by {
            if i < front.len() {
                assert(s[i] == front[i]);
            } else {
                assert(s[i] == edge[i - front.len()]);
            }
        }
        assert forall|i: int, j: int| 0 <= i < s.len() && 0 <= j < s.len() && i != j implies s[i] != s[j] by {
            if i < front.len() && j >= front.len() {
                assert(s[i] == front[i] && s[j] == edge[j - front.len()]);
            } else if j < front.len() && i >= front.len() {
                assert(s[j] == front[j] && s[i] == edge[i - front.len()]);
            } else if i < front.len() {
                assert(s[i] == front[i] && s[j] == front[j]);
            } else {
                assert(s[i] == edge[i - front.len()] && s[j] == edge[j - front.len()]);
            }
        }
    }
}

/// The ring edges of radius `0 .. n` hold `n * (n + 1) / 2` coordinates.
proof fn lemma_full_wedge_len(c: Hex, n: int, d: int, cw: bool)
    requires
        n >= 0,
    ensures
        2 * full_wedge_seq(c, n, d, cw).len() == n * (n + 1),
    decreases n,
{
    if n > 0 {
        lemma_full_wedge_len(c, n - 1, d, cw);
        assert(full_wedge_seq(c, n, d, cw) == full_wedge_seq(c, n - 1, d, cw) + edge_seq(c, n - 1, d, cw));
        assert(edge_seq(c, n - 1, d, cw).len() == n);
        assert((n - 1) * n + 2 * n == n * (n + 1)) by (nonlinear_arith);
    } else {
        assert(n * (n + 1) == 0) by (nonlinear_arith)
            requires
                n == 0,
        ;
    }
}

/// The wedge of the radii `0 ..= r` facing `d` holds
/// [`Hex::wedge_count`] coordinates, each at most `r` steps away from `c`,
/// and none twice.
pub proof fn lemma_wedge_count(c: Hex, ranges: Seq<u32>, r: int, d: int, cw: bool)
    requires
        r >= 0,
        range_fits(c, r),
        0 <= d < 6,
        ranges.len() == r + 1,
        forall|k: int| 0 <= k < ranges.len() ==> #[trigger] ranges[k] == k,
    ensures
        wedge_seq(c, ranges, d, cw).len() == wedge_count_spec(r),
        wedge_seq(c, ranges, d, cw).no_duplicates(),
        forall|i: int|
            0 <= i < wedge_seq(c, ranges, d, cw).len() ==> (#[trigger] wedge_seq(c, ranges, d, cw)[i]).dist(c) <= r,
{
    lemma_wedge_of_all_radii(c, ranges, r, d, cw);
    lemma_full_wedge_len(c, r + 1, d, cw);
    lemma_full_wedge_no_duplicates(c, r + 1, d, cw);
    assert(r * (r + 3) == (r + 1) * (r + 2) - 2) by (nonlinear_arith);
    assert((r + 1) * (r + 2) == 2 * full_wedge_seq(c, r + 1, d, cw).len());
    assert(wedge_count_spec(r) == full_wedge_seq(c, r + 1, d, cw).len()) by {
        let l = full_wedge_seq(c, r + 1, d, cw).len() as int;
        assert(r * (r + 3) == 2 * l - 2);
        assert((2 * l - 2) / 2 == l - 1);
    }
}

/// The wedge of the radii `0, 1, ..., r` is the full wedge of radius `r`.
pub proof fn lemma_wedge_of_all_radii(c: Hex, ranges: Seq<u32>, r: int, d: int, cw: bool)
    requires
        r >= -1,
        ranges.len() == r + 1,
        forall|k: int| 0 <= k < ranges.len() ==> #[trigger] ranges[k] == k,
    ensures
        wedge_seq(c, ranges, d, cw) == full_wedge_seq(c, r + 1, d, cw),
    decreases r + 1,
{
    if r >= 0 {
        let front = ranges.drop_last();
        lemma_wedge_of_all_radii(c, front, r - 1, d, cw);
        assert(ranges.last() == r);
    }
}

/// Every coordinate of the ring edges of the given radii around `c` is at
/// most `bound` steps away from `c` when every radius is.
pub proof fn lemma_wedge_distance(c: Hex, ranges: Seq<u32>, d: int, cw: bool, bound: int)
    requires
        0 <= d < 6,
        forall|k: int| 0 <= k < ranges.len() ==> range_fits(c, #[trigger] ranges[k] as int),
        forall|k: int| 0 <= k < ranges.len() ==> #[trigger] ranges[k] <= bound,
    ensures
        forall|i: int|
            0 <= i < wedge_seq(c, ranges, d, cw).len() ==> (#[trigger] wedge_seq(c, ranges, d, cw)[i]).dist(c)
                <= bound,
    decreases ranges.len(),
{
    if ranges.len() > 0 {
        let front = ranges.drop_last();
        lemma_wedge_distance(c, front, d, cw, bound);
        let w = wedge_seq(c, ranges, d, cw);
        let n = wedge_seq(c, front, d, cw).len();
        assert forall|i: int| 0 <= i < w.len() implies (#[trigger] w[i]).dist(c) <= bound by {
            if i >= n {
                lemma_edge_distance(c, ranges.last() as int, d, cw, i - n);
            } else {
                assert(w[i] == wedge_seq(c, front, d, cw)[i]);
            }
        }
    }
}

/// The coordinates `h` for which `direction` is the main direction from `c`
/// to `h`.
pub open spec fn towards(c: Hex, direction: Direction) -> spec_fn(Hex) -> bool {
    |h: Hex| way_spec(h.x - c.x, h.y - c.y).first() == direction
}

/// The ring of radius `1` around `c` is the six neighbors of `c`, in
/// [`Direction`] order.
pub proof fn lemma_unit_ring_is_neighbors(c: Hex)
    requires
        range_fits(c, 1),
    ensures
        ring_seq(c, 1, 0, false).len() == 6,
        forall|i: int|
            0 <= i < 6 ==> #[trigger] ring_seq(c, 1, 0, false)[i] == (Hex {
                x: (c.x + neighbor_x(i)) as i32,
                y: (c.y + neighbor_y(i)) as i32,
            }),
{
    assert forall|i: int| 0 <= i < 6 implies #[trigger] ring_seq(c, 1, 0, false)[i] == (Hex {
        x: (c.x + neighbor_x(i)) as i32,
        y: (c.y + neighbor_y(i)) as i32,
    }) by {
        assert(i / 1 == i && i % 1 == 0);
    }
}

/// Walking a ring clockwise visits the coordinates of the counter clockwise
/// walk from the same start in reverse order: the `i`-th coordinate of the
/// clockwise ring is the `(n - i) % n`-th of the counter clockwise one.
#[verifier::spinoff_prover]
#[verifier::rlimit(50)]
pub proof fn lemma_ring_reversed(c: Hex, r: int, s: int, i: int)
    requires
        r > 0,
        0 <= s < 6,
        0 <= i < 6 * r,
    ensures
        ring_hex(c, r, s, true, i) == ring_hex(c, r, s, false, (6 * r - i) % (6 * r)),
{
    let n = 6 * r;
    let j = (n - i) % n;
    let k = i / r;
    let t = i % r;
    vstd::arithmetic::div_mod::lemma_fundamental_div_mod(i, r);
    vstd::arithmetic::div_mod::lemma_mod_bound(i, r);
    assert(0 <= k < 6) by (nonlinear_arith)
        requires
            r > 0,
            0 <= i < 6 * r,
            i == r * k + t,
            0 <= t < r,
    ;
    if i == 0 {
        vstd::arithmetic::div_mod::lemma_mod_self_0(n);
        assert(j == 0);
        assert(0int / r == 0 && 0int % r == 0) by {
            vstd::arithmetic::div_mod::lemma_div_basics(r);
        }
    } else if t == 0 {
        vstd::arithmetic::div_mod::lemma_small_mod((n - i) as nat, n as nat);
        assert(n - i == r * (6 - k)) by (nonlinear_arith)
            requires
                n == 6 * r,
                i == r * k,
        ;
        vstd::arithmetic::div_mod::lemma_fundamental_div_mod_converse(j, r, 6 - k, 0);
    } else {
        vstd::arithmetic::div_mod::lemma_small_mod((n - i) as nat, n as nat);
        assert(n - i == r * (5 - k) + (r - t)) by (nonlinear_arith)
            requires
                n == 6 * r,
                i == r * k + t,
        ;
        vstd::arithmetic::div_mod::lemma_fundamental_div_mod_converse(j, r, 5 - k, r - t);
        assert(r * 1 == r && r * -1 == -r && r * 0 == 0);
        assert(t * 1 == t && t * -1 == -t && t * 0 == 0);
        assert((r - t) * 1 == r - t && (r - t) * -1 == t - r && (r - t) * 0 == 0);
    }
}

/// The clockwise ring is the counter clockwise one reversed, then rotated by
/// one so that both start from the same coordinate.
pub proof fn lemma_ring_clockwise_reversed(c: Hex, r: int, s: int)
    requires
        r > 0,
        0 <= s < 6,
    ensures
        ring_seq(c, r, s, true) == Seq::new(
            (6 * r) as nat,
            |i: int| ring_seq(c, r, s, false)[(6 * r - i) % (6 * r)],
        ),
{
    let n = 6 * r;
    assert forall|i: int| 0 <= i < n implies #[trigger] ring_seq(c, r, s, true)[i] == ring_seq(c, r, s, false)[(n
        - i) % n] by {
        lemma_ring_reversed(c, r, s, i);
        assert(0 <= (n - i) % n < n);
    }
    assert(ring_seq(c, r, s, true) =~= Seq::new(n as nat, |i: int| ring_seq(c, r, s, false)[(n - i) % n]));
}

/// A ring around `c` is the ring of the same radius around the origin moved
/// by `c`.
pub proof fn lemma_ring_translation(c: Hex, r: int, s: int, cw: bool)
    requires
        range_fits(c, r),
        0 <= s < 6,
    ensures
        ring_seq(c, r, s, cw) == ring_seq(Hex { x: 0, y: 0 }, r, s, cw).map_values(|h: Hex| h.plus(c)),
{
    let o = Hex { x: 0, y: 0 };
    assert forall|i: int| 0 <= i < ring_count_spec(r) implies #[trigger] ring_seq(c, r, s, cw)[i] == ring_seq(
        o,
        r,
        s,
        cw,
    )[i].plus(c) by {
        if r > 0 {
            let k = i / r;
            let t = i % r;
            vstd::arithmetic::div_mod::lemma_fundamental_div_mod(i, r);
            vstd::arithmetic::div_mod::lemma_mod_bound(i, r);
            assert(0 <= k < 6) by (nonlinear_arith)
                requires
                    i == r * k + t,
                    0 <= t < r,
                    0 <= i < 6 * r,
                    r > 0,
            ;
            lemma_ring_step(r, t, ring_corner(s, cw, k), cw);
        }
    }
    assert(ring_seq(c, r, s, cw) =~= ring_seq(o, r, s, cw).map_values(|h: Hex| h.plus(c)));
}

/// Position, in the ring of radius `k > 0` starting from `TopRight` and
/// going counter clockwise, of the offset `(dx, dy)` of length `k`.
pub open spec fn ring_index(k: int, dx: int, dy: int) -> int {
    if dy == -k && dx > 0 {
        k - dx
    } else if -dx - dy == k && dx <= 0 && dy < 0 {
        k - dx
    } else if dx == -k && 0 <= dy < k {
        2 * k + dy
    } else if dy == k && dx < 0 {
        3 * k + dx + k
    } else if -dx - dy == -k && dx >= 0 && dy > 0 {
        4 * k + dx
    } else {
        5 * k - dy
    }
}

/// An offset of length `k > 0` is `k` steps towards some corner `q`
/// followed by `t < k` steps along its side, at position [`ring_index`].
proof fn lemma_ring_decompose(k: int, dx: int, dy: int) -> (qt: (int, int))
    requires
        k > 0,
        hex_norm(dx, dy) == k,
    ensures
        0 <= qt.0 < 6,
        0 <= qt.1 < k,
        ring_index(k, dx, dy) == qt.0 * k + qt.1,
        k * neighbor_x(qt.0) + qt.1 * neighbor_x((qt.0 + 2) % 6) == dx,
        k * neighbor_y(qt.0) + qt.1 * neighbor_y((qt.0 + 2) % 6) == dy,
{
    assert(k * 1 == k && k * -1 == -k && k * 0 == 0);
    if dy == -k && dx > 0 {
        assert((k - dx) * -1 == dx - k && (k - dx) * 0 == 0);
        assert(0 * k == 0);
        (0, k - dx)
    } else if -dx - dy == k && dx <= 0 && dy < 0 {
        assert((-dx) * -1 == dx && (-dx) * 1 == -dx);
        assert(1 * k == k);
        (1, -dx)
    } else if dx == -k && 0 <= dy < k {
        assert(dy * 0 == 0 && dy * 1 == dy);
        assert(2 * k == k + k);
        (2, dy)
    } else if dy == k && dx < 0 {
        assert((dx + k) * 1 == dx + k && (dx + k) * 0 == 0);
        assert(3 * k == k + k + k);
        (3, dx + k)
    } else if -dx - dy == -k && dx >= 0 && dy > 0 {
        assert(dx * 1 == dx && dx * -1 == -dx);
        assert(4 * k == k + k + k + k);
        (4, dx)
    } else {
        assert((-dy) * 0 == 0 && (-dy) * -1 == dy);
        assert(5 * k == k + k + k + k + k);
        (5, -dy)
    }
}

/// Every coordinate exactly `k` steps away from `c` is on the ring of radius
/// `k` around `c`, at position [`ring_index`].
pub proof fn lemma_ring_complete(c: Hex, k: int, h: Hex)
    requires
        k > 0,
        h.dist(c) == k,
    ensures
        0 <= ring_index(k, h.x - c.x, h.y - c.y) < 6 * k,
        ring_hex(c, k, 0, false, ring_index(k, h.x - c.x, h.y - c.y)) == h,
{
    let (q, t) = lemma_ring_decompose(k, h.x - c.x, h.y - c.y);
    assert(0 <= q * k + t < 6 * k) by (nonlinear_arith)
        requires
            0 <= q < 6,
            0 <= t < k,
    ;
    lemma_ring_point(c, k, q, t);
}

/// The coordinate at position `q * k + t` of the counter clockwise ring of
/// radius `k` starting from `TopRight`: `k` steps towards corner `q`, then
/// `t` steps along its side.
proof fn lemma_ring_point(c: Hex, k: int, q: int, t: int)
    requires
        k > 0,
        0 <= q < 6,
        0 <= t < k,
    ensures
        ring_hex(c, k, 0, false, q * k + t) == (Hex {
            x: (c.x + k * neighbor_x(q) + t * neighbor_x((q + 2) % 6)) as i32,
            y: (c.y + k * neighbor_y(q) + t * neighbor_y((q + 2) % 6)) as i32,
        }),
{
    vstd::arithmetic::div_mod::lemma_fundamental_div_mod_converse(q * k + t, k, q, t);
    assert(ring_corner(0, false, q) == q);
    assert(ring_side(0, false, q) == (q + 2) % 6);
}

/// The coordinate at position `i` of the counter clockwise ring of radius
/// `k` starting from `TopRight` has position `i` again: [`ring_index`]
/// inverts the ring.
proof fn lemma_ring_index_of(c: Hex, k: int, i: int)
    requires
        k > 0,
        0 <= i < 6 * k,
        range_fits(c, k),
    ensures
        ring_index(k, ring_hex(c, k, 0, false, i).x - c.x, ring_hex(c, k, 0, false, i).y - c.y) == i,
{
    let q = i / k;
    let t = i % k;
    vstd::arithmetic::div_mod::lemma_fundamental_div_mod(i, k);
    vstd::arithmetic::div_mod::lemma_mod_bound(i, k);
    assert(0 <= q < 6) by (nonlinear_arith)
        requires
            i == k * q + t,
            0 <= t < k,
            0 <= i < 6 * k,
            k > 0,
    ;
    assert(i == q * k + t) by {
        vstd::arithmetic::mul::lemma_mul_is_commutative(q, k);
    }
    lemma_ring_point(c, k, q, t);
    lemma_ring_step(k, t, q, false);
    assert(k * 1 == k && k * -1 == -k && k * 0 == 0);
    assert(t * 1 == t && t * -1 == -t && t * 0 == 0);
    assert(0 * k == 0 && 1 * k == k && 2 * k == k + k && 3 * k == k + k + k && 4 * k == k + k + k + k && 5 * k
        == k + k + k + k + k);
}

/// The counter clockwise ring of radius `k` starting from `TopRight` holds
/// no coordinate twice.
pub proof fn lemma_ring_no_duplicates(c: Hex, k: int)
    requires
        range_fits(c, k),
    ensures
        ring_seq(c, k, 0, false).no_duplicates(),
{
    let s = ring_seq(c, k, 0, false);
    if k > 0 {
        assert forall|i: int, j: int| 0 <= i < s.len() && 0 <= j < s.len() && i != j implies s[i] != s[j] by {
            lemma_ring_index_of(c, k, i);
            lemma_ring_index_of(c, k, j);
        }
    }
}

/// The rings of radius `0 .. n` around `c` hold every coordinate at most
/// `n - 1` steps away from `c`, and no coordinate twice.
pub proof fn lemma_spiral_no_duplicates(c: Hex, n: int)
    requires
        n >= 1,
        range_fits(c, n - 1),
    ensures
        spiral_seq(c, n, 0, false).no_duplicates(),
        forall|i: int|
            0 <= i < spiral_seq(c, n, 0, false).len() ==> (#[trigger] spiral_seq(c, n, 0, false)[i]).dist(c) < n,
    decreases n,
{
    let front = spiral_seq(c, n - 1, 0, false);
    let ring = ring_seq(c, n - 1, 0, false);
    let s = spiral_seq(c, n, 0, false);
    assert(s == front + ring);
    lemma_ring_no_duplicates(c, n - 1);
    assert forall|j: int| 0 <= j < ring.len() implies (#[trigger] ring[j]).dist(c) == n - 1 by {
        lemma_ring_distance(c, n - 1, 0, false, j);
    }
    if n > 1 {
        lemma_spiral_no_duplicates(c, n - 1);
    } else {
        assert(front.len() == 0);
    }
    assert forall|i: int| 0 <= i < s.len() implies (#[trigger] s[i]).dist(c) < n by {
        if i < front.len() {
            assert(s[i] == front[i]);
        } else {
            assert(s[i] == ring[i - front.len()]);
        }
    }
    assert forall|i: int, j: int| 0 <= i < s.len() && 0 <= j < s.len() && i != j implies s[i] != s[j] by {
        if i < front.len() && j >= front.len() {
            assert(s[i] == front[i] && s[j] == ring[j - front.len()]);
        } else if j < front.len() && i >= front.len() {
            assert(s[j] == front[j] && s[i] == ring[i - front.len()]);
        } else if i < front.len() {
            assert(s[i] == front[i] && s[j] == front[j]);
        } else {
            assert(s[i] == ring[i - front.len()] && s[j] == ring[j - front.len()]);
        }
    }
}

/// The rings of radius `0 .. n` hold `3 * (n - 1) * n + 1` coordinates.
proof fn lemma_spiral_len(c: Hex, n: int, s: int, cw: bool)
    requires
        n >= 1,
    ensures
        spiral_seq(c, n, s, cw).len() == 3 * (n - 1) * n + 1,
    decreases n,
{
    if n > 1 {
        lemma_spiral_len(c, n - 1, s, cw);
        assert(3 * (n - 2) * (n - 1) + 1 + 6 * (n - 1) == 3 * (n - 1) * n + 1) by (nonlinear_arith);
    } else {
        assert(spiral_seq(c, 0, s, cw).len() == 0);
    }
}

/// The spiral of radius `r` around `c` lists each coordinate at most `r`
/// steps away from `c` exactly once, like the range of radius `r`
/// (see [`Hex::range`]): it is a permutation of that range.
pub proof fn lemma_spiral_is_range_permutation(c: Hex, r: int)
    requires
        range_fits(c, r),
    ensures
        spiral_seq(c, r + 1, 0, false).len() == 3 * r * (r + 1) + 1,
        spiral_seq(c, r + 1, 0, false).no_duplicates(),
        forall|h: Hex| spiral_seq(c, r + 1, 0, false).contains(h) <==> h.dist(c) <= r,
{
    lemma_spiral_len(c, r + 1, 0, false);
    lemma_spiral_no_duplicates(c, r + 1);
    assert forall|h: Hex| spiral_seq(c, r + 1, 0, false).contains(h) <==> h.dist(c) <= r by {
        if h.dist(c) <= r {
            lemma_spiral_complete(c, r + 1, h);
        }
    }
}

/// The rings of radius `0 .. n` around `c` contain every coordinate at
/// most `n - 1` steps away from `c`.
pub proof fn lemma_spiral_complete(c: Hex, n: int, h: Hex)
    requires
        n > 0,
        h.dist(c) < n,
    ensures
        spiral_seq(c, n, 0, false).contains(h),
    decreases n,
{
    let k = h.dist(c);
    let front = spiral_seq(c, n - 1, 0, false);
    let ring = ring_seq(c, n - 1, 0, false);
    assert(spiral_seq(c, n, 0, false) == front + ring);
    if k == n - 1 {
        if k == 0 {
            assert(h == c);
            assert(ring[0] == c);
            assert((front + ring)[front.len() as int] == h);
        } else {
            lemma_ring_complete(c, k, h);
            let i = ring_index(k, h.x - c.x, h.y - c.y);
            assert(ring[i] == h);
            assert((front + ring)[front.len() + i] == h);
        }
    } else {
        lemma_spiral_complete(c, n - 1, h);
        let j = choose|j: int| 0 <= j < front.len() && front[j] == h;
        assert((front + ring)[j] == h);
    }
}

/// Smallest `y` offset of column `dx` of a range of radius `r`.
pub open spec fn col_min(r: int, dx: int) -> int {
    if -r >= -dx - r {
        -r
    } else {
        -dx - r
    }
}

/// Largest `y` offset of column `dx` of a range of radius `r`.
pub open spec fn col_max(r: int, dx: int) -> int {
    if r <= r - dx {
        r
    } else {
        r - dx
    }
}

/// Number of coordinates of a range of radius `r` in the columns `-r .. x`.
pub open spec fn range_prefix(r: int, x: int) -> int
    decreases x + r,
{
    if x <= -r {
        0
    } else {
        range_prefix(r, x - 1) + (col_max(r, x - 1) - col_min(r, x - 1) + 1)
    }
}

/// Position of the offset `(dx, dy)` in a range of radius `r`, which lists
/// columns by increasing `dx` and each column by increasing `dy`.
pub open spec fn range_index(r: int, dx: int, dy: int) -> int {
    range_prefix(r, dx) + dy - col_min(r, dx)
}

/// `a` comes strictly before `b` when ordered by `x`, then by `y`.
pub open spec fn xy_less(a: Hex, b: Hex) -> bool {
    a.x < b.x || (a.x == b.x && a.y < b.y)
}

/// The coordinates of `s` are listed in strictly increasing `x`, then `y`
/// order.
pub open spec fn xy_sorted(s: Seq<Hex>) -> bool {
    forall|i: int, j: int| 0 <= i < j < s.len() ==> xy_less(#[trigger] s[i], #[trigger] s[j])
}

/// A sequence sorted by `x` then `y` is determined by the coordinates it
/// holds.
pub proof fn lemma_sorted_unique(a: Seq<Hex>, b: Seq<Hex>)
    requires
        xy_sorted(a),
        xy_sorted(b),
        forall|h: Hex| a.contains(h) <==> b.contains(h),
    ensures
        a == b,
    decreases a.len() + b.len(),
{
    if a.len() == 0 {
        if b.len() > 0 {
            assert(b.contains(b[0]));
        }
        assert(a =~= b);
    } else {
        assert(a.contains(a[0]));
        assert(b.contains(a[0]));
        assert(b.len() > 0);
        assert(b.contains(b[0]));
        assert(a.contains(b[0]));
        let i = choose|i: int| 0 <= i < a.len() && a[i] == b[0];
        let j = choose|j: int| 0 <= j < b.len() && b[j] == a[0];
        if i > 0 {
            assert(xy_less(a[0], a[i]));
            if j > 0 {
                assert(xy_less(b[0], b[j]));
            }
        }
        if j > 0 {
            assert(xy_less(b[0], b[j]));
        }
        assert(a[0] == b[0]);
        let ta = a.drop_first();
        let tb = b.drop_first();
        assert forall|h: Hex| ta.contains(h) <==> tb.contains(h) by {
            if ta.contains(h) {
                let k = choose|k: int| 0 <= k < ta.len() && ta[k] == h;
                assert(a[k + 1] == h);
                assert(xy_less(a[0], a[k + 1]));
                assert(b.contains(h));
                let m = choose|m: int| 0 <= m < b.len() && b[m] == h;
                assert(m != 0);
                assert(tb[m - 1] == h);
            }
            if tb.contains(h) {
                let k = choose|k: int| 0 <= k < tb.len() && tb[k] == h;
                assert(b[k + 1] == h);
                assert(xy_less(b[0], b[k + 1]));
                assert(a.contains(h));
                let m = choose|m: int| 0 <= m < a.len() && a[m] == h;
                assert(m != 0);
                assert(ta[m - 1] == h);
            }
        }
        assert forall|x: int, y: int| 0 <= x < y < ta.len() implies xy_less(#[trigger] ta[x], #[trigger] ta[y]) by {
            assert(ta[x] == a[x + 1] && ta[y] == a[y + 1]);
        }
        assert forall|x: int, y: int| 0 <= x < y < tb.len() implies xy_less(#[trigger] tb[x], #[trigger] tb[y]) by {
            assert(tb[x] == b[x + 1] && tb[y] == b[y + 1]);
        }
        lemma_sorted_unique(ta, tb);
        assert(a.len() == b.len());
        assert forall|k: int| 0 <= k < a.len() implies a[k] == b[k] by {
            if k > 0 {
                assert(a[k] == ta[k - 1]);
                assert(b[k] == tb[k - 1]);
            }
        }
        assert(a =~= b);
    }
}

/// The coordinates other than `c`.
pub open spec fn other_than(c: Hex) -> spec_fn(Hex) -> bool {
    |h: Hex| h != c
}

/// Leaving `c` out of a sorted sequence keeps it sorted, and keeps every
/// other coordinate.
proof fn lemma_filter_out_sorted(s: Seq<Hex>, c: Hex)
    requires
        xy_sorted(s),
    ensures
        xy_sorted(s.filter(other_than(c))),
        forall|h: Hex| #[trigger] s.filter(other_than(c)).contains(h) <==> (s.contains(h) && h != c),
    decreases s.len(),
{
    let pred = other_than(c);
    reveal(Seq::filter);
    if s.len() > 0 {
        let front = s.drop_last();
        assert forall|x: int, y: int| 0 <= x < y < front.len() implies xy_less(#[trigger] front[x], #[trigger] front[y]) by {
            assert(front[x] == s[x] && front[y] == s[y]);
        }
        lemma_filter_out_sorted(front, c);
        let ff = front.filter(pred);
        let f = s.filter(pred);
        assert(f == if pred(s.last()) { ff.push(s.last()) } else { ff });
        assert forall|h: Hex| ff.contains(h) implies xy_less(h, s.last()) by {
            assert(front.filter(other_than(c)).contains(h));
            assert(front.contains(h));
            let k = choose|k: int| 0 <= k < front.len() && front[k] == h;
            assert(s[k] == h);
        }
        assert forall|x: int, y: int| 0 <= x < y < f.len() implies xy_less(#[trigger] f[x], #[trigger] f[y]) by {
            if y < ff.len() {
                assert(f[x] == ff[x] && f[y] == ff[y]);
            } else {
                assert(f[x] == ff[x]);
                assert(ff.contains(ff[x]));
            }
        }
        assert forall|h: Hex| f.contains(h) <==> (s.contains(h) && h != c) by {
            if f.contains(h) {
                let k = choose|k: int| 0 <= k < f.len() && f[k] == h;
                if k < ff.len() {
                    assert(ff[k] == h);
                    assert(ff.contains(h));
                    let m = choose|m: int| 0 <= m < front.len() && front[m] == h;
                    assert(s[m] == h);
                } else {
                    assert(h == s.last());
                    assert(s[s.len() - 1] == h);
                }
            }
            if s.contains(h) && h != c {
                let k = choose|k: int| 0 <= k < s.len() && s[k] == h;
                if k < s.len() - 1 {
                    assert(front[k] == h);
                    assert(ff.contains(h));
                    let m = choose|m: int| 0 <= m < ff.len() && ff[m] == h;
                    assert(f[m] == h);
                } else {
                    assert(f[f.len() - 1] == h);
                }
            }
        }
    } else {
        assert(s.filter(pred) =~= Seq::<Hex>::empty());
    }
}

/// The range of radius `r` around `c` without `c` itself is the range
/// without its center: a listing of the coordinates `0 < dist <= r` sorted
/// like [`Hex::xrange`] equals a listing of those `dist <= r` sorted like
/// [`Hex::range`] with `c` left out.
pub proof fn lemma_xrange_is_range_without_center(c: Hex, r: int, all: Seq<Hex>, xs: Seq<Hex>)
    requires
        xy_sorted(all),
        forall|h: Hex| all.contains(h) <==> h.dist(c) <= r,
        xy_sorted(xs),
        forall|h: Hex| xs.contains(h) <==> 0 < h.dist(c) <= r,
    ensures
        xs == all.filter(other_than(c)),
{
    lemma_filter_out_sorted(all, c);
    assert forall|h: Hex| xs.contains(h) <==> all.filter(other_than(c)).contains(h) by {
        if h == c {
            assert(h.dist(c) == 0);
        }
    }
    lemma_sorted_unique(xs, all.filter(other_than(c)));
}

/// Twice the number of coordinates in the columns `-r .. x`, in closed form.
pub open spec fn range_prefix2(r: int, x: int) -> int {
    if x <= 0 {
        (x + r) * (2 * r + 2) + (x + r) * (x + r - 1)
    } else {
        3 * r * r + r + x * (4 * r + 2) - x * (x - 1)
    }
}

/// The columns of a range hold `3 * r * (r + 1) + 1` coordinates in total,
/// counted column by column.
pub proof fn lemma_range_prefix(r: int, x: int)
    requires
        r >= 0,
        -r <= x <= r + 1,
    ensures
        2 * range_prefix(r, x) == range_prefix2(r, x),
        x == r + 1 ==> range_prefix(r, x) == 3 * r * (r + 1) + 1,
    decreases x + r,
{
    if x == -r {
        assert((x + r) * (2 * r + 2) + (x + r) * (x + r - 1) == 0) by (nonlinear_arith)
            requires
                x + r == 0,
        ;
    } else {
        lemma_range_prefix(r, x - 1);
        let y = x - 1;
        if x <= 0 {
            assert(col_max(r, y) - col_min(r, y) + 1 == 2 * r + 1 + y);
            assert((x + r) * (2 * r + 2) + (x + r) * (x + r - 1) == (y + r) * (2 * r + 2) + (y + r) * (y
                + r - 1) + 2 * (2 * r + 1 + y)) by (nonlinear_arith)
                requires
                    y == x - 1,
            ;
        } else {
            assert(col_max(r, y) - col_min(r, y) + 1 == 2 * r + 1 - y);
            if y == 0 {
                assert(range_prefix2(r, y) == r * (2 * r + 2) + r * (r - 1));
                assert(r * (2 * r + 2) + r * (r - 1) == 3 * r * r + r) by (nonlinear_arith);
            }
            assert(3 * r * r + r + x * (4 * r + 2) - x * (x - 1) == 3 * r * r + r + y * (4 * r + 2) - y
                * (y - 1) + 2 * (2 * r + 1 - y)) by (nonlinear_arith)
                requires
                    y == x - 1,
            ;
        }
    }
    if x == r + 1 {
        assert(3 * r * r + r + (r + 1) * (4 * r + 2) - (r + 1) * r == 2 * (3 * r * (r + 1) + 1))
            by (nonlinear_arith);
    }
}

/// The number of coordinates in the columns `-r .. x` grows with `x`.
pub proof fn lemma_range_prefix_mono(r: int, a: int, b: int)
    requires
        r >= 0,
        -r <= a <= b <= r + 1,
    ensures
        range_prefix(r, a) <= range_prefix(r, b),
    decreases b - a,
{
    if a < b {
        lemma_range_prefix_mono(r, a, b - 1);
    }
}

impl Hex {
    /// Counts how many coordinates there are in a ring at the given `range`
    pub fn ring_count(range: u32) -> (r: usize)
        requires
            6 * range <= usize::MAX,
        ensures
            r == ring_count_spec(range as int),
    {
        if range == 0 {
            1
        } else {
            6 * range as usize
        }
    }

    /// Retrieves one ring of coordinates around `self` at distance `range`.
    /// The coordinates start from `start_dir` and loop counter clockwise
    /// around `self`, unless `clockwise` is set. A ring of range 0 is `self`
    /// alone; any other ring has `6 * range` coordinates.
    pub fn custom_ring(self, range: u32, start_dir: Direction, clockwise: bool) -> (v: Vec<Hex>)
        requires
            range_fits(self, range as int),
            6 * range <= usize::MAX,
        ensures
            v@ == ring_seq(self, range as int, start_dir.idx(), clockwise),
            v.len() == ring_count_spec(range as int),
            forall|i: int| 0 <= i < v.len() ==> (#[trigger] v@[i]).dist(self) == range,
    {
        let ghost s = start_dir.idx();
        let ghost r = range as int;
        if range == 0 {
            let v = vec![self];
            assert(v@ =~= ring_seq(self, r, s, clockwise));
            return v;
        }
        let dirs = Self::NEIGHBORS_COORDS();
        let si = start_dir.index();
        let mut v: Vec<Hex> = Vec::new();
        let mut k: usize = 0;
        while k < 6
            invariant
                0 <= k <= 6,
                range > 0,
                si == s,
                0 <= s < 6,
                r == range,
                range_fits(self, r),
                6 * range <= usize::MAX,
                forall|i: int| 0 <= i < 6 ==> (#[trigger] dirs[i]).x == neighbor_x(i) && dirs[i].y == neighbor_y(i),
                v.len() == k * range,
                forall|j: int| 0 <= j < v.len() ==> v@[j] == ring_hex(self, r, s, clockwise, j),
            decreases 6 - k,
        {
            let a = if clockwise {
                (si + 6 - k) % 6
            } else {
                (si + k) % 6
            };
            let b = if clockwise {
                (a + 4) % 6
            } else {
                (a + 2) % 6
            };
            assert(a == ring_corner(s, clockwise, k as int));
            assert(b == ring_side(s, clockwise, k as int));
            let da = dirs[a];
            let db = dirs[b];
            let mut t: u32 = 0;
            while t < range
                invariant
                    0 <= k < 6,
                    0 <= t <= range,
                    range > 0,
                    r == range,
                    range_fits(self, r),
                    6 * range <= usize::MAX,
                    a == ring_corner(s, clockwise, k as int),
                    b == ring_side(s, clockwise, k as int),
                    0 <= a < 6,
                    b == if clockwise { (a + 4) % 6 } else { (a + 2) % 6 },
                    da.x == neighbor_x(a as int),
                    da.y == neighbor_y(a as int),
                    db.x == neighbor_x(b as int),
                    db.y == neighbor_y(b as int),
                    v.len() == k * range + t,
                    forall|j: int| 0 <= j < v.len() ==> v@[j] == ring_hex(self, r, s, clockwise, j),
                decreases range - t,
            {
                let ghost i = k * r + t;
                proof {
                    vstd::arithmetic::div_mod::lemma_fundamental_div_mod_converse(i, r, k as int, t as int);
                    lemma_ring_step(r, t as int, a as int, clockwise);
                    assert(k * range + t < 6 * range) by (nonlinear_arith)
                        requires
                            k < 6,
                            t < range,
                    ;
                    assert(-range <= da.x * range <= range && -range <= da.y * range <= range
                        && -range <= db.x * t <= range && -range <= db.y * t <= range)
                        by (nonlinear_arith)
                        requires
                            -1 <= da.x <= 1,
                            -1 <= da.y <= 1,
                            -1 <= db.x <= 1,
                            -1 <= db.y <= 1,
                            0 <= t <= range,
                    ;
                }
                let dx = da.x as i64 * range as i64 + db.x as i64 * t as i64;
                let dy = da.y as i64 * range as i64 + db.y as i64 * t as i64;
                let h = Hex { x: (self.x as i64 + dx) as i32, y: (self.y as i64 + dy) as i32 };
                assert(h == ring_hex(self, r, s, clockwise, i));
                v.push(h);
                t += 1;
            }
            assert(k * range + range == (k + 1) * range) by (nonlinear_arith);
            k += 1;
        }
        assert(v@ =~= ring_seq(self, r, s, clockwise));
        proof {
            assert forall|i: int| 0 <= i < v.len() implies (#[trigger] v@[i]).dist(self) == range by {
                lemma_ring_distance(self, r, s, clockwise, i);
            }
        }
        v
    }

    /// Retrieves one ring of coordinates around `self` at distance `range`,
    /// starting from [`Direction::TopRight`] and looping counter clockwise.
    pub fn ring(self, range: u32) -> (v: Vec<Hex>)
        requires
            range_fits(self, range as int),
            6 * range <= usize::MAX,
        ensures
            v@ == ring_seq(self, range as int, 0, false),
            forall|i: int| 0 <= i < v.len() ==> (#[trigger] v@[i]).dist(self) == range,
            forall|h: Hex| h.dist(self) == range ==> v@.contains(h),
    {
        let v = self.custom_ring(range, Direction::TopRight, false);
        proof {
            assert forall|i: int| 0 <= i < v.len() implies (#[trigger] v@[i]).dist(self) == range by {
                lemma_ring_distance(self, range as int, 0, false, i);
            }
            assert forall|h: Hex| h.dist(self) == range implies v@.contains(h) by {
                if range == 0 {
                    assert(v@[0] == h);
                } else {
                    lemma_ring_complete(self, range as int, h);
                    assert(v@[ring_index(range as int, h.x - self.x, h.y - self.y)] == h);
                }
            }
        }
        v
    }

    /// Retrieves one ring of coordinates for each radius of `ranges`, each
    /// starting from [`Direction::TopRight`] and looping counter clockwise.
    pub fn rings(self, ranges: &[u32]) -> (v: Vec<Vec<Hex>>)
        requires
            forall|i: int| 0 <= i < ranges.len() ==> range_fits(self, #[trigger] ranges[i] as int),
            forall|i: int| 0 <= i < ranges.len() ==> 6 * #[trigger] ranges[i] <= usize::MAX,
        ensures
            v.len() == ranges.len(),
            forall|i: int| 0 <= i < v.len() ==> (#[trigger] v[i])@ == ring_seq(self, ranges[i] as int, 0, false),
    {
        self.custom_rings(ranges, Direction::TopRight, false)
    }

    /// Retrieves one ring of coordinates for each radius of `ranges`, each
    /// starting from `start_dir` and looping counter clockwise unless
    /// `clockwise` is set.
    pub fn custom_rings(self, ranges: &[u32], start_dir: Direction, clockwise: bool) -> (v: Vec<Vec<Hex>>)
        requires
            forall|i: int| 0 <= i < ranges.len() ==> range_fits(self, #[trigger] ranges[i] as int),
            forall|i: int| 0 <= i < ranges.len() ==> 6 * #[trigger] ranges[i] <= usize::MAX,
        ensures
            v.len() == ranges.len(),
            forall|i: int|
                0 <= i < v.len() ==> (#[trigger] v[i])@ == ring_seq(self, ranges[i] as int, start_dir.idx(), clockwise),
    {
        let mut v: Vec<Vec<Hex>> = Vec::new();
        let mut i: usize = 0;
        while i < ranges.len()
            invariant
                0 <= i <= ranges.len(),
                v.len() == i,
                forall|k: int| 0 <= k < ranges.len() ==> range_fits(self, #[trigger] ranges[k] as int),
                forall|k: int| 0 <= k < ranges.len() ==> 6 * #[trigger] ranges[k] <= usize::MAX,
                forall|k: int|
                    0 <= k < i ==> (#[trigger] v[k])@ == ring_seq(self, ranges[k] as int, start_dir.idx(), clockwise),
            decreases ranges.len() - i,
        {
            let ring = self.custom_ring(ranges[i], start_dir, clockwise);
            v.push(ring);
            i += 1;
        }
        v
    }

    /// Retrieves the ring edge of radius `radius` around `self` facing
    /// `direction`: `radius + 1` coordinates going counter clockwise around
    /// `self`, unless `clockwise` is set.
    #[verifier::spinoff_prover]
    #[verifier::rlimit(30)]
    pub fn custom_ring_edge(self, radius: u32, direction: DiagonalDirection, clockwise: bool) -> (v: Vec<Hex>)
        requires
            range_fits(self, radius as int),
        ensures
            v@ == edge_seq(self, radius as int, direction.idx(), clockwise),
            forall|i: int| 0 <= i < v.len() ==> (#[trigger] v@[i]).dist(self) == radius,
            forall|i: int| 0 <= i < radius ==> (#[trigger] v@[i + 1]).dist(v@[i]) == 1,
    {
        let ghost d = direction.idx();
        let ghost r = radius as int;
        let start_dir = if clockwise {
            direction.direction_left()
        } else {
            direction.direction_right()
        };
        let end_dir = if clockwise {
            start_dir.rotate_cw(2)
        } else {
            start_dir.rotate_ccw(2)
        };
        assert(start_dir.idx() == edge_corner(d, clockwise));
        assert(end_dir.idx() == edge_side(d, clockwise));
        let sd = Self::neighbor_coord(start_dir);
        let ed = Self::neighbor_coord(end_dir);
        let mut v: Vec<Hex> = Vec::new();
        let mut i: u32 = 0;
        while i <= radius
            invariant
                0 <= i <= radius + 1,
                r == radius,
                0 <= d < 6,
                range_fits(self, r),
                sd.x == neighbor_x(edge_corner(d, clockwise)),
                sd.y == neighbor_y(edge_corner(d, clockwise)),
                ed.x == neighbor_x(edge_side(d, clockwise)),
                ed.y == neighbor_y(edge_side(d, clockwise)),
                v.len() == i,
                forall|j: int| 0 <= j < i ==> v@[j] == edge_hex(self, r, d, clockwise, j),
                forall|j: int| 0 <= j < i ==> (#[trigger] v@[j]).dist(self) == r,
            decreases radius + 1 - i,
        {
            proof {
                lemma_ring_step(r, i as int, edge_corner(d, clockwise), clockwise);
                assert(-radius <= sd.x * radius <= radius && -radius <= sd.y * radius <= radius
                    && -radius <= ed.x * i <= radius && -radius <= ed.y * i <= radius)
                    by (nonlinear_arith)
                    requires
                        -1 <= sd.x <= 1,
                        -1 <= sd.y <= 1,
                        -1 <= ed.x <= 1,
                        -1 <= ed.y <= 1,
                        0 <= i <= radius,
                ;
            }
            let dx = sd.x as i64 * radius as i64 + ed.x as i64 * i as i64;
            let dy = sd.y as i64 * radius as i64 + ed.y as i64 * i as i64;
            let h = Hex { x: (self.x as i64 + dx) as i32, y: (self.y as i64 + dy) as i32 };
            assert(h == edge_hex(self, r, d, clockwise, i as int));
            v.push(h);
            i += 1;
        }
        assert(v@ =~= edge_seq(self, r, d, clockwise));
        proof {
            assert forall|i: int| 0 <= i < radius implies (#[trigger] v@[i + 1]).dist(v@[i]) == 1 by {
                lemma_edge_steps(self, r, d, clockwise, i);
            }
        }
        v
    }

    /// Retrieves the ring edge of radius `radius` around `self` facing
    /// `direction`, going counter clockwise around `self`.
    pub fn ring_edge(self, radius: u32, direction: DiagonalDirection) -> (v: Vec<Hex>)
        requires
            range_fits(self, radius as int),
        ensures
            v@ == edge_seq(self, radius as int, direction.idx(), false),
            forall|i: int| 0 <= i < v.len() ==> (#[trigger] v@[i]).dist(self) == radius,
    {
        self.custom_ring_edge(radius, direction, false)
    }

    /// Retrieves the ring edges facing `direction` for each radius of
    /// `ranges`, going counter clockwise around `self` unless `clockwise` is
    /// set.
    pub fn custom_ring_edges(self, ranges: &[u32], direction: DiagonalDirection, clockwise: bool) -> (v: Vec<
        Vec<Hex>,
    >)
        requires
            forall|i: int| 0 <= i < ranges.len() ==> range_fits(self, #[trigger] ranges[i] as int),
        ensures
            v.len() == ranges.len(),
            forall|i: int|
                0 <= i < v.len() ==> (#[trigger] v[i])@ == edge_seq(self, ranges[i] as int, direction.idx(), clockwise),
    {
        let mut v: Vec<Vec<Hex>> = Vec::new();
        let mut i: usize = 0;
        while i < ranges.len()
            invariant
                0 <= i <= ranges.len(),
                v.len() == i,
                forall|k: int| 0 <= k < ranges.len() ==> range_fits(self, #[trigger] ranges[k] as int),
                forall|k: int|
                    0 <= k < i ==> (#[trigger] v[k])@ == edge_seq(self, ranges[k] as int, direction.idx(), clockwise),
            decreases ranges.len() - i,
        {
            let edge = self.custom_ring_edge(ranges[i], direction, clockwise);
            v.push(edge);
            i += 1;
        }
        v
    }

    /// Retrieves the ring edges facing `direction` for each radius of
    /// `ranges`, going counter clockwise around `self`.
    pub fn ring_edges(self, ranges: &[u32], direction: DiagonalDirection) -> (v: Vec<Vec<Hex>>)
        requires
            forall|i: int| 0 <= i < ranges.len() ==> range_fits(self, #[trigger] ranges[i] as int),
        ensures
            v.len() == ranges.len(),
            forall|i: int|
                0 <= i < v.len() ==> (#[trigger] v[i])@ == edge_seq(self, ranges[i] as int, direction.idx(), false),
    {
        self.custom_ring_edges(ranges, direction, false)
    }

    /// Retrieves the ring edges facing `direction` for each radius of
    /// `ranges`, one after the other, going counter clockwise around `self`
    /// unless `clockwise` is set.
    pub fn custom_wedge(self, ranges: &[u32], direction: DiagonalDirection, clockwise: bool) -> (v: Vec<Hex>)
        requires
            forall|i: int| 0 <= i < ranges.len() ==> range_fits(self, #[trigger] ranges[i] as int),
        ensures
            v@ == wedge_seq(self, ranges@, direction.idx(), clockwise),
    {
        let ghost d = direction.idx();
        let mut v: Vec<Hex> = Vec::new();
        let mut i: usize = 0;
        while i < ranges.len()
            invariant
                0 <= i <= ranges.len(),
                d == direction.idx(),
                forall|k: int| 0 <= k < ranges.len() ==> range_fits(self, #[trigger] ranges[k] as int),
                v@ == wedge_seq(self, ranges@.subrange(0, i as int), d, clockwise),
            decreases ranges.len() - i,
        {
            let mut edge = self.custom_ring_edge(ranges[i], direction, clockwise);
            v.append(&mut edge);
            assert(ranges@.subrange(0, i + 1).drop_last() =~= ranges@.subrange(0, i as int));
            i += 1;
        }
        assert(ranges@.subrange(0, ranges.len() as int) =~= ranges@);
        v
    }

    /// Retrieves the ring edges facing `direction` for each radius of
    /// `ranges`, one after the other, going counter clockwise around `self`.
    pub fn wedge(self, ranges: &[u32], direction: DiagonalDirection) -> (v: Vec<Hex>)
        requires
            forall|i: int| 0 <= i < ranges.len() ==> range_fits(self, #[trigger] ranges[i] as int),
        ensures
            v@ == wedge_seq(self, ranges@, direction.idx(), false),
    {
        self.custom_wedge(ranges, direction, false)
    }

    /// Counts how many coordinates there are in a wedge of radius `range`:
    /// `range * (range + 3) / 2 + 1`.
    pub fn wedge_count(range: u32) -> (r: u32)
        requires
            wedge_count_spec(range as int) <= u32::MAX,
        ensures
            r == wedge_count_spec(range as int),
    {
        let n = range as u64;
        assert(0 <= n * (n + 3) <= 0xffff_ffff * 0x1_0000_0002) by (nonlinear_arith)
            requires
                0 <= n <= 0xffff_ffff,
        ;
        (n * (n + 3) / 2 + 1) as u32
    }

    /// Retrieves the ring edges facing `direction` of every radius from `0`
    /// to `range`, one after the other, going counter clockwise around `self`
    /// unless `clockwise` is set. There are `range * (range + 3) / 2 + 1` of
    /// them.
    pub fn custom_full_wedge(self, range: u32, direction: DiagonalDirection, clockwise: bool) -> (v: Vec<Hex>)
        requires
            range_fits(self, range as int),
        ensures
            v@ == full_wedge_seq(self, range + 1, direction.idx(), clockwise),
            v.len() == wedge_count_spec(range as int),
            forall|i: int| 0 <= i < v.len() ==> (#[trigger] v@[i]).dist(self) <= range,
            v@.no_duplicates(),
    {
        proof {
            lemma_full_wedge_no_duplicates(self, range + 1, direction.idx(), clockwise);
        }
        let ghost d = direction.idx();
        let mut v: Vec<Hex> = Vec::new();
        let mut i: u32 = 0;
        while i <= range
            invariant
                0 <= i <= range + 1,
                d == direction.idx(),
                range_fits(self, range as int),
                v@ == full_wedge_seq(self, i as int, d, clockwise),
                2 * v.len() == i * (i + 1),
                forall|j: int| 0 <= j < v.len() ==> (#[trigger] v@[j]).dist(self) <= range,
            decreases range + 1 - i,
        {
            let mut edge = self.custom_ring_edge(i, direction, clockwise);
            let ghost old_v = v@;
            let ghost edge_view = edge@;
            v.append(&mut edge);
            proof {
                assert forall|j: int| 0 <= j < v.len() implies (#[trigger] v@[j]).dist(self) <= range by {
                    if j >= old_v.len() {
                        assert(v@[j] == edge_view[j - old_v.len()]);
                    } else {
                        assert(v@[j] == old_v[j]);
                    }
                }
                assert(i * (i + 1) + 2 * (i + 1) == (i + 1) * (i + 2)) by (nonlinear_arith);
            }
            i += 1;
        }
        assert((range + 1) * (range + 2) == range * (range + 3) + 2) by (nonlinear_arith);
        v
    }

    /// Retrieves the ring edges facing `direction` of every radius from `0`
    /// to `range`, one after the other, going counter clockwise around `self`.
    pub fn full_wedge(self, range: u32, direction: DiagonalDirection) -> (v: Vec<Hex>)
        requires
            range_fits(self, range as int),
        ensures
            v@ == full_wedge_seq(self, range + 1, direction.idx(), false),
            v.len() == wedge_count_spec(range as int),
            forall|i: int| 0 <= i < v.len() ==> (#[trigger] v@[i]).dist(self) <= range,
            v@.no_duplicates(),
    {
        self.custom_full_wedge(range, direction, false)
    }

    /// Retrieves the full wedge from `self` to `rhs`: the ring edges of every
    /// radius up to the distance to `rhs`, facing the main diagonal towards
    /// `rhs`, going counter clockwise around `self` unless `clockwise` is set.
    pub fn custom_wedge_to(self, rhs: Self, clockwise: bool) -> (v: Vec<Hex>)
        requires
            way_args_fit(rhs.x - self.x, rhs.y - self.y),
            range_fits(self, self.dist(rhs)),
        ensures
            v@ == full_wedge_seq(
                self,
                self.dist(rhs) + 1,
                crate::hex::diagonal_way_spec(rhs.x - self.x, rhs.y - self.y).first().idx(),
                clockwise,
            ),
            v.len() == wedge_count_spec(self.dist(rhs)),
    {
        let range = self.unsigned_distance_to(rhs);
        let direction = self.main_diagonal_to(rhs);
        self.custom_full_wedge(range, direction, clockwise)
    }

    /// Retrieves the full wedge from `self` to `rhs`, going counter clockwise
    /// around `self`.
    pub fn wedge_to(self, rhs: Self) -> (v: Vec<Hex>)
        requires
            way_args_fit(rhs.x - self.x, rhs.y - self.y),
            range_fits(self, self.dist(rhs)),
        ensures
            v@ == full_wedge_seq(
                self,
                self.dist(rhs) + 1,
                crate::hex::diagonal_way_spec(rhs.x - self.x, rhs.y - self.y).first().idx(),
                false,
            ),
            v.len() == wedge_count_spec(self.dist(rhs)),
    {
        self.custom_wedge_to(rhs, false)
    }

    /// Keeps the coordinates of `hexes` towards which `direction` is the main
    /// direction from `self`, in order.
    fn keep_towards(self, hexes: &Vec<Hex>, direction: Direction) -> (v: Vec<Hex>)
        requires
            forall|i: int| 0 <= i < hexes.len() ==> (#[trigger] hexes@[i]).dist(self) <= 0x3fff_ffff,
        ensures
            v@ == hexes@.filter(towards(self, direction)),
    {
        let mut v: Vec<Hex> = Vec::new();
        let mut i: usize = 0;
        while i < hexes.len()
            invariant
                0 <= i <= hexes.len(),
                forall|k: int| 0 <= k < hexes.len() ==> (#[trigger] hexes@[k]).dist(self) <= 0x3fff_ffff,
                v@ == hexes@.subrange(0, i as int).filter(towards(self, direction)),
            decreases hexes.len() - i,
        {
            let h = hexes[i];
            assert(h.dist(self) <= 0x3fff_ffff);
            let keep = self.main_direction_to(h) == direction;
            proof {
                reveal(Seq::filter);
                let next = hexes@.subrange(0, i + 1);
                assert(next.drop_last() =~= hexes@.subrange(0, i as int));
                assert(next.last() == h);
            }
            if keep {
                v.push(h);
            }
            i += 1;
        }
        assert(hexes@.subrange(0, hexes.len() as int) =~= hexes@);
        v
    }

    /// Retrieves the coordinates of the wedges on both sides of `direction`
    /// for each radius of `ranges` whose main direction from `self` is
    /// `direction`: first those of the counter clockwise side, then those of
    /// the clockwise side.
    pub fn corner_wedge(self, ranges: &[u32], direction: Direction) -> (v: Vec<Hex>)
        requires
            forall|i: int| 0 <= i < ranges.len() ==> range_fits(self, #[trigger] ranges[i] as int),
            forall|i: int| 0 <= i < ranges.len() ==> #[trigger] ranges[i] <= 0x3fff_ffff,
        ensures
            v@ == (wedge_seq(self, ranges@, (direction.idx() + 1) % 6, false) + wedge_seq(
                self,
                ranges@,
                direction.idx(),
                false,
            )).filter(towards(self, direction)),
    {
        let mut all = self.wedge(ranges, direction.diagonal_ccw());
        let mut right = self.wedge(ranges, direction.diagonal_cw());
        proof {
            lemma_wedge_distance(self, ranges@, (direction.idx() + 1) % 6, false, 0x3fff_ffff);
            lemma_wedge_distance(self, ranges@, direction.idx(), false, 0x3fff_ffff);
        }
        let ghost left_view = all@;
        let ghost right_view = right@;
        all.append(&mut right);
        proof {
            assert forall|i: int| 0 <= i < all.len() implies (#[trigger] all@[i]).dist(self) <= 0x3fff_ffff by {
                if i >= left_view.len() {
                    assert(all@[i] == right_view[i - left_view.len()]);
                } else {
                    assert(all@[i] == left_view[i]);
                }
            }
        }
        self.keep_towards(&all, direction)
    }

    /// Retrieves the corner wedge from `self` to `rhs`: the coordinates of
    /// the wedges of every radius up to the distance to `rhs` whose main
    /// direction from `self` is the main direction towards `rhs`.
    pub fn corner_wedge_to(self, rhs: Self) -> (v: Vec<Hex>)
        requires
            way_args_fit(rhs.x - self.x, rhs.y - self.y),
            range_fits(self, self.dist(rhs)),
            self.dist(rhs) <= 0x3fff_ffff,
        ensures
            ({
                let ranges = Seq::new((self.dist(rhs) + 1) as nat, |i: int| i as u32);
                let d = way_spec(rhs.x - self.x, rhs.y - self.y).first();
                v@ == (wedge_seq(self, ranges, (d.idx() + 1) % 6, false) + wedge_seq(
                    self,
                    ranges,
                    d.idx(),
                    false,
                )).filter(towards(self, d))
            }),
    {
        let range = self.unsigned_distance_to(rhs);
        let direction = self.main_direction_to(rhs);
        let mut ranges: Vec<u32> = Vec::new();
        let mut i: u32 = 0;
        while i <= range
            invariant
                0 <= i <= range + 1,
                range <= 0x3fff_ffff,
                ranges.len() == i,
                forall|k: int| 0 <= k < i ==> ranges@[k] == k,
            decreases range + 1 - i,
        {
            ranges.push(i);
            i += 1;
        }
        assert(ranges@ =~= Seq::new((range + 1) as nat, |i: int| i as u32));
        proof {
            assert forall|k: int| 0 <= k < ranges.len() implies range_fits(self, #[trigger] ranges@[k] as int) by {
            }
        }
        self.corner_wedge(ranges.as_slice(), direction)
    }

    /// Computes the rings of radius `0 .. range` around `self`, each starting
    /// from `start_dir` and looping counter clockwise unless `clockwise` is
    /// set, so that they can be reused.
    pub fn cached_custom_rings(self, range: u32, start_dir: Direction, clockwise: bool) -> (v: Vec<Vec<Hex>>)
        requires
            range_fits(self, range as int),
            6 * range <= usize::MAX,
        ensures
            v.len() == range,
            forall|i: int| 0 <= i < range ==> (#[trigger] v[i])@ == ring_seq(self, i, start_dir.idx(), clockwise),
    {
        let mut v: Vec<Vec<Hex>> = Vec::new();
        let mut i: u32 = 0;
        while i < range
            invariant
                0 <= i <= range,
                range_fits(self, range as int),
                6 * range <= usize::MAX,
                v.len() == i,
                forall|k: int| 0 <= k < i ==> (#[trigger] v[k])@ == ring_seq(self, k, start_dir.idx(), clockwise),
            decreases range - i,
        {
            let ring = self.custom_ring(i, start_dir, clockwise);
            v.push(ring);
            i += 1;
        }
        v
    }

    /// Computes the rings of radius `0 .. range` around `self`, each starting
    /// from [`Direction::TopRight`] and looping counter clockwise.
    pub fn cached_rings(self, range: u32) -> (v: Vec<Vec<Hex>>)
        requires
            range_fits(self, range as int),
            6 * range <= usize::MAX,
        ensures
            v.len() == range,
            forall|i: int| 0 <= i < range ==> (#[trigger] v[i])@ == ring_seq(self, i, 0, false),
    {
        self.cached_custom_rings(range, Direction::TopRight, false)
    }

    /// Computes the ring edges of radius `0 .. range` around `self` facing
    /// `direction`, going counter clockwise unless `clockwise` is set, so that
    /// they can be reused.
    pub fn cached_custom_ring_edges(self, range: u32, direction: DiagonalDirection, clockwise: bool) -> (v: Vec<
        Vec<Hex>,
    >)
        requires
            range_fits(self, range as int),
        ensures
            v.len() == range,
            forall|i: int| 0 <= i < range ==> (#[trigger] v[i])@ == edge_seq(self, i, direction.idx(), clockwise),
    {
        let mut v: Vec<Vec<Hex>> = Vec::new();
        let mut i: u32 = 0;
        while i < range
            invariant
                0 <= i <= range,
                range_fits(self, range as int),
                v.len() == i,
                forall|k: int| 0 <= k < i ==> (#[trigger] v[k])@ == edge_seq(self, k, direction.idx(), clockwise),
            decreases range - i,
        {
            let edge = self.custom_ring_edge(i, direction, clockwise);
            v.push(edge);
            i += 1;
        }
        v
    }

    /// Computes the ring edges of radius `0 .. range` around `self` facing
    /// `direction`, going counter clockwise.
    pub fn cached_ring_edges(self, range: u32, direction: DiagonalDirection) -> (v: Vec<Vec<Hex>>)
        requires
            range_fits(self, range as int),
        ensures
            v.len() == range,
            forall|i: int| 0 <= i < range ==> (#[trigger] v[i])@ == edge_seq(self, i, direction.idx(), false),
    {
        self.cached_custom_ring_edges(range, direction, false)
    }

    /// Retrieves all coordinates around `self` at a distance of at most
    /// `range`, ring after ring from the center outwards, each ring starting
    /// from `start_dir` and looping counter clockwise unless `clockwise` is
    /// set, forming a spiral.
    pub fn custom_spiral_range(self, range: u32, start_dir: Direction, clockwise: bool) -> (v: Vec<Hex>)
        requires
            range_fits(self, range as int),
            6 * range <= usize::MAX,
        ensures
            v@ == spiral_seq(self, range + 1, start_dir.idx(), clockwise),
            v.len() == 3 * range * (range + 1) + 1,
            forall|i: int| 0 <= i < v.len() ==> (#[trigger] v@[i]).dist(self) <= range,
    {
        let ghost s = start_dir.idx();
        let mut v: Vec<Hex> = Vec::new();
        let mut i: u32 = 0;
        while i <= range
            invariant
                0 <= i <= range + 1,
                range_fits(self, range as int),
                6 * range <= usize::MAX,
                s == start_dir.idx(),
                v@ == spiral_seq(self, i as int, s, clockwise),
                v.len() == if i == 0 {
                    0
                } else {
                    3 * i * (i - 1) + 1
                },
                forall|j: int| 0 <= j < v.len() ==> (#[trigger] v@[j]).dist(self) <= range,
            decreases range + 1 - i,
        {
            let mut ring = self.custom_ring(i, start_dir, clockwise);
            let ghost old_v = v@;
            let ghost ring_view = ring@;
            v.append(&mut ring);
            proof {
                assert forall|j: int| 0 <= j < v.len() implies (#[trigger] v@[j]).dist(self) <= range by {
                    if j >= old_v.len() {
                        assert(v@[j] == ring_view[j - old_v.len()]);
                        lemma_ring_distance(self, i as int, s, clockwise, j - old_v.len());
                    } else {
                        assert(v@[j] == old_v[j]);
                    }
                }
                if i > 0 {
                    assert(3 * i * (i - 1) + 1 + 6 * i == 3 * (i + 1) * i + 1) by (nonlinear_arith);
                }
            }
            i += 1;
        }
        assert(3 * (range + 1) * range == 3 * range * (range + 1)) by (nonlinear_arith);
        v
    }

    /// Retrieves all coordinates around `self` at a distance of at most
    /// `range`, ring after ring from the center outwards, each ring starting
    /// from [`Direction::TopRight`] and looping counter clockwise.
    pub fn spiral_range(self, range: u32) -> (v: Vec<Hex>)
        requires
            range_fits(self, range as int),
            6 * range <= usize::MAX,
        ensures
            v@ == spiral_seq(self, range + 1, 0, false),
            v.len() == 3 * range * (range + 1) + 1,
            forall|i: int| 0 <= i < v.len() ==> (#[trigger] v@[i]).dist(self) <= range,
            forall|h: Hex| h.dist(self) <= range ==> v@.contains(h),
            v@.no_duplicates(),
    {
        let v = self.custom_spiral_range(range, Direction::TopRight, false);
        proof {
            lemma_spiral_no_duplicates(self, range + 1);
            assert forall|h: Hex| h.dist(self) <= range implies v@.contains(h) by {
                lemma_spiral_complete(self, range + 1, h);
            }
        }
        v
    }

    /// Retrieves all coordinates around `self` at a distance of at most
    /// `range`, ordered by `x` then by `y`. There are
    /// `3 * range * (range + 1) + 1` of them.
    pub fn range(self, range: u32) -> (v: Vec<Hex>)
        requires
            range_fits(self, range as int),
        ensures
            v.len() == 3 * range * (range + 1) + 1,
            forall|i: int| 0 <= i < v.len() ==> (#[trigger] v@[i]).dist(self) <= range,
            forall|i: int, j: int| 0 <= i < j < v.len() ==> xy_less(#[trigger] v@[i], #[trigger] v@[j]),
            forall|h: Hex| h.dist(self) <= range ==> v@.contains(h),
    {
        let ghost r = range as int;
        let rr = range as i64;
        let mut v: Vec<Hex> = Vec::new();
        let mut x: i64 = -rr;
        while x <= rr
            invariant
                r == range,
                rr == r,
                range_fits(self, r),
                -r <= x <= r + 1,
                v.len() == range_prefix(r, x as int),
                forall|i: int| 0 <= i < v.len() ==> (#[trigger] v@[i]).dist(self) <= r && v@[i].x < self.x + x,
                forall|i: int, j: int| 0 <= i < j < v.len() ==> xy_less(#[trigger] v@[i], #[trigger] v@[j]),
                forall|dx: int, dy: int|
                    -r <= dx < x && col_min(r, dx) <= dy <= col_max(r, dx) ==> v@[#[trigger] range_index(r, dx, dy)]
                        == (Hex { x: (self.x + dx) as i32, y: (self.y + dy) as i32 }),
            decreases r + 1 - x,
        {
            let y_min = if -rr >= -x - rr { -rr } else { -x - rr };
            let y_max = if rr <= rr - x { rr } else { rr - x };
            let mut y = y_min;
            while y <= y_max
                invariant
                    r == range,
                    rr == r,
                    range_fits(self, r),
                    -r <= x <= r,
                    y_min == col_min(r, x as int),
                    y_max == col_max(r, x as int),
                    y_min <= y <= y_max + 1,
                    v.len() == range_prefix(r, x as int) + y - y_min,
                    forall|i: int|
                        0 <= i < v.len() ==> (#[trigger] v@[i]).dist(self) <= r && (v@[i].x < self.x + x || (
                        v@[i].x == self.x + x && v@[i].y < self.y + y)),
                    forall|i: int, j: int| 0 <= i < j < v.len() ==> xy_less(#[trigger] v@[i], #[trigger] v@[j]),
                    forall|dx: int, dy: int|
                        ((-r <= dx < x && col_min(r, dx) <= dy <= col_max(r, dx)) || (dx == x && y_min <= dy < y))
                            ==> v@[#[trigger] range_index(r, dx, dy)] == (Hex {
                            x: (self.x + dx) as i32,
                            y: (self.y + dy) as i32,
                        }),
                decreases y_max + 1 - y,
            {
                let h = Hex { x: (self.x as i64 + x) as i32, y: (self.y as i64 + y) as i32 };
                assert(h.dist(self) <= r);
                let ghost old_v = v@;
                v.push(h);
                proof {
                    assert forall|dx: int, dy: int|
                        ((-r <= dx < x && col_min(r, dx) <= dy <= col_max(r, dx)) || (dx == x && y_min <= dy
                            < y + 1)) implies v@[#[trigger] range_index(r, dx, dy)] == (Hex {
                        x: (self.x + dx) as i32,
                        y: (self.y + dy) as i32,
                    }) by {
                        lemma_range_prefix_mono(r, -r, dx);
                        if dx < x {
                            lemma_range_prefix_mono(r, dx + 1, x as int);
                            assert(range_prefix(r, dx + 1) == range_prefix(r, dx) + col_max(r, dx) - col_min(
                                r,
                                dx,
                            ) + 1);
                            assert(v@[range_index(r, dx, dy)] == old_v[range_index(r, dx, dy)]);
                        } else if dy < y {
                            assert(v@[range_index(r, dx, dy)] == old_v[range_index(r, dx, dy)]);
                        }
                    }
                }
                y += 1;
            }
            x += 1;
        }
        proof {
            lemma_range_prefix(r, r + 1);
            assert forall|h: Hex| h.dist(self) <= range implies v@.contains(h) by {
                let dx = h.x - self.x;
                let dy = h.y - self.y;
                lemma_range_prefix_mono(r, dx + 1, r + 1);
                lemma_range_prefix_mono(r, -r, dx);
                assert(range_prefix(r, dx + 1) == range_prefix(r, dx) + col_max(r, dx) - col_min(r, dx)
                    + 1);
                assert(v@[range_index(r, dx, dy)] == h);
            }
        }
        v
    }

    /// Retrieves all coordinates around `self` at a distance of at most
    /// `range`, except `self`, ordered by `x` then by `y`. There are
    /// `3 * range * (range + 1)` of them.
    pub fn xrange(self, range: u32) -> (v: Vec<Hex>)
        requires
            range_fits(self, range as int),
        ensures
            v.len() == 3 * range * (range + 1),
            forall|i: int| 0 <= i < v.len() ==> 0 < (#[trigger] v@[i]).dist(self) <= range,
            forall|i: int, j: int| 0 <= i < j < v.len() ==> xy_less(#[trigger] v@[i], #[trigger] v@[j]),
            forall|h: Hex| 0 < h.dist(self) <= range ==> v@.contains(h),
    {
        let all = self.range(range);
        assert(self.dist(self) == 0);
        assert(all@.contains(self));
        let ghost i0 = choose|k: int| 0 <= k < all.len() && all@[k] == self;
        let mut v: Vec<Hex> = Vec::new();
        let mut i: usize = 0;
        while i < all.len()
            invariant
                0 <= i <= all.len(),
                0 <= i0 < all.len(),
                all@[i0] == self,
                forall|k: int| 0 <= k < all.len() ==> (#[trigger] all@[k]).dist(self) <= range,
                forall|a: int, b: int| 0 <= a < b < all.len() ==> xy_less(#[trigger] all@[a], #[trigger] all@[b]),
                v.len() == if i > i0 {
                    i - 1
                } else {
                    i as int
                },
                forall|k: int| 0 <= k < i && k < i0 ==> v@[k] == all@[k],
                forall|k: int| 0 <= k < i && k > i0 ==> v@[k - 1] == all@[k],
            decreases all.len() - i,
        {
            let h = all[i];
            if h != self {
                assert(i != i0);
                v.push(h);
            } else {
                assert(i == i0) by {
                    if i < i0 {
                        assert(xy_less(all@[i as int], all@[i0]));
                    } else if i > i0 {
                        assert(xy_less(all@[i0], all@[i as int]));
                    }
                }
            }
            i += 1;
        }
        proof {
            assert forall|a: int| 0 <= a < v.len() implies v@[a] == if a < i0 {
                all@[a]
            } else {
                all@[a + 1]
            } by {
                if a >= i0 {
                    assert(v@[(a + 1) - 1] == all@[a + 1]);
                }
            }
            assert forall|a: int| 0 <= a < v.len() implies 0 < (#[trigger] v@[a]).dist(self) <= range by {
                let k = if a < i0 {
                    a
                } else {
                    a + 1
                };
                assert(v@[a] == all@[k]);
                if k < i0 {
                    assert(xy_less(all@[k], all@[i0]));
                } else {
                    assert(xy_less(all@[i0], all@[k]));
                }
            }
            assert forall|a: int, b: int| 0 <= a < b < v.len() implies xy_less(
                #[trigger] v@[a],
                #[trigger] v@[b],
            ) by {
                let ka = if a < i0 {
                    a
                } else {
                    a + 1
                };
                let kb = if b < i0 {
                    b
                } else {
                    b + 1
                };
                assert(v@[a] == all@[ka]);
                assert(v@[b] == all@[kb]);
                assert(xy_less(all@[ka], all@[kb]));
            }
            assert forall|h: Hex| 0 < h.dist(self) <= range implies v@.contains(h) by {
                assert(all@.contains(h));
                let k = choose|k: int| 0 <= k < all.len() && all@[k] == h;
                assert(k != i0);
                if k < i0 {
                    assert(v@[k] == h);
                } else {
                    assert(v@[k - 1] == h);
                }
            }
            assert(3 * range * (range + 1) + 1 - 1 == 3 * range * (range + 1));
        }
        v
    }
}

} // verus!
