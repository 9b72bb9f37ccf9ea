//! The whole A* search: search steps repeated until the destination is
//! reached or nothing remains to explore.
use crate::hex::Hex;
use crate::movement::neighbor_hex;
use crate::pathfinding::{expand, inner, path_to, relax, AStar, AStarStep, SearchState};
use vstd::prelude::*;
use vstd::set_lib::*;

verus! {

/// One more than the largest `u32`: every recorded total is below it.
pub open spec fn total_span() -> int {
    0x1_0000_0000
}

/// Sum, over the coordinates of `s`, of how far their recorded total in `m`
/// is below [`total_span`]: it grows whenever a total is recorded or
/// lowered.
pub open spec fn set_pot(s: Set<Hex>, m: Map<Hex, u32>) -> int
    decreases s.len(),
    when s.finite()
{
    if s.len() == 0 {
        0
    } else {
        let a = s.choose();
        (total_span() - m[a]) + set_pot(s.remove(a), m)
    }
}

/// The potential of the recorded totals `m`.
pub open spec fn pot(m: Map<Hex, u32>) -> int {
    set_pot(m.dom(), m)
}

/// The potential of a finite set can be split at any of its elements.
proof fn lemma_set_pot_remove(s: Set<Hex>, m: Map<Hex, u32>, a: Hex)
    requires
        s.finite(),
        s.contains(a),
    ensures
        set_pot(s, m) == (total_span() - m[a]) + set_pot(s.remove(a), m),
    decreases s.len(),
{
    let c = s.choose();
    assert(s.len() > 0);
    if c != a {
        lemma_set_pot_remove(s.remove(c), m, a);
        lemma_set_pot_remove(s.remove(a), m, c);
        assert(s.remove(c).remove(a) =~= s.remove(a).remove(c));
    }
}

/// The potential only depends on the totals of the elements of the set.
proof fn lemma_set_pot_agree(s: Set<Hex>, m1: Map<Hex, u32>, m2: Map<Hex, u32>)
    requires
        s.finite(),
        forall|h: Hex| s.contains(h) ==> m1[h] == m2[h],
    ensures
        set_pot(s, m1) == set_pot(s, m2),
    decreases s.len(),
{
    if s.len() > 0 {
        let a = s.choose();
        lemma_set_pot_agree(s.remove(a), m1, m2);
    }
}

/// Each element adds between `1` and [`total_span`] to the potential.
proof fn lemma_set_pot_bounds(s: Set<Hex>, m: Map<Hex, u32>)
    requires
        s.finite(),
    ensures
        s.len() <= set_pot(s, m) <= total_span() * s.len(),
    decreases s.len(),
{
    if s.len() > 0 {
        let a = s.choose();
        lemma_set_pot_bounds(s.remove(a), m);
        assert(total_span() * s.remove(a).len() + total_span() == total_span() * s.len()) by (nonlinear_arith)
            requires
                s.remove(a).len() + 1 == s.len(),
        ;
    }
}

/// Recording a new coordinate, or lowering a recorded total, raises the
/// potential by at least `1`.
proof fn lemma_pot_insert(m: Map<Hex, u32>, k: Hex, v: u32)
    requires
        m.dom().finite(),
        !m.contains_key(k) || v < m[k],
    ensures
        m.insert(k, v).dom().finite(),
        pot(m.insert(k, v)) >= pot(m) + 1,
{
    let m2 = m.insert(k, v);
    assert(m2.dom() =~= m.dom().insert(k));
    lemma_set_pot_remove(m2.dom(), m2, k);
    if m.contains_key(k) {
        lemma_set_pot_remove(m.dom(), m, k);
        assert(m2.dom().remove(k) =~= m.dom().remove(k));
        lemma_set_pot_agree(m.dom().remove(k), m, m2);
    } else {
        assert(m2.dom().remove(k) =~= m.dom());
        lemma_set_pot_agree(m.dom(), m, m2);
    }
}

/// Number of `i32` values strictly between `i32::MIN` and `i32::MAX`.
pub open spec fn inner_width() -> int {
    0xffff_fffe
}

/// Position of an inner coordinate in a numbering of all of them.
spec fn inner_index(h: Hex) -> int {
    (h.x - i32::MIN - 1) * inner_width() + (h.y - i32::MIN - 1)
}

/// A finite set of inner coordinates has at most `inner_width()^2`
/// elements.
proof fn lemma_inner_count(s: Set<Hex>)
    requires
        s.finite(),
        forall|h: Hex| s.contains(h) ==> inner(h),
    ensures
        s.len() <= inner_width() * inner_width(),
{
    let f = |h: Hex| inner_index(h);
    let w = inner_width();
    assert forall|a: Hex, b: Hex| s.contains(a) && s.contains(b) && #[trigger] f(a) == #[trigger] f(b) implies a
        == b by {
        assert(inner(a) && inner(b));
        let (ax, ay, bx, by) = (a.x - i32::MIN - 1, a.y - i32::MIN - 1, b.x - i32::MIN - 1, b.y - i32::MIN - 1);
        assert(f(a) == ax * w + ay && f(b) == bx * w + by);
        assert(0 <= ay < w && 0 <= by < w && 0 <= ax < w && 0 <= bx < w);
        assert(ax == bx && ay == by) by (nonlinear_arith)
            requires
                ax * w + ay == bx * w + by,
                0 <= ay < w,
                0 <= by < w,
        ;
    }
    let image = s.map(f);
    lemma_map_size(s, image, f);
    lemma_int_range(0, w * w);
    assert forall|i: int| image.contains(i) implies set_int_range(0, w * w).contains(i) by {
        let h = choose|h: Hex| s.contains(h) && f(h) == i;
        assert(inner(h));
        let (hx, hy) = (h.x - i32::MIN - 1, h.y - i32::MIN - 1);
        assert(i == hx * w + hy);
        assert(0 <= hx * w + hy < w * w) by (nonlinear_arith)
            requires
                0 <= hx < w,
                0 <= hy < w,
        ;
    }
    lemma_len_subset(image, set_int_range(0, w * w));
}

/// Whether some pending node of `open` is `h`.
pub open spec fn open_has(open: Seq<(Hex, u32)>, h: Hex) -> bool {
    exists|i: int| 0 <= i < open.len() && (#[trigger] open[i]).0 == h
}

/// What one relaxation does to the search state: totals only appear or go
/// down, and only for `n`, which is then inner and pending; the potential
/// grows by at least the number of new pending nodes; an entered neighbor
/// ends up with a total no larger than the one offered.
proof fn lemma_relax_effect(st: SearchState, from: Hex, base: u32, n: Hex, c: Option<u32>, start: Hex)
    requires
        st.0.dom().finite(),
    ensures
        ({
            let r = relax(st, from, base, n, c, start);
            &&& r.0.dom().finite()
            &&& forall|h: Hex| #[trigger] st.0.contains_key(h) ==> r.0.contains_key(h) && r.0[h] <= st.0[h]
            &&& forall|h: Hex| #[trigger] r.0.contains_key(h) && h != n ==> st.0.contains_key(h) && r.0[h] == st.0[h]
            &&& r.0.contains_key(n) && (!st.0.contains_key(n) || r.0[n] != st.0[n]) ==> inner(n) && open_has(r.2, n)
            &&& r.2.len() >= st.2.len()
            &&& forall|i: int| 0 <= i < st.2.len() ==> #[trigger] r.2[i] == st.2[i]
            &&& pot(r.0) - pot(st.0) >= r.2.len() - st.2.len()
            &&& forall|i: int| st.2.len() <= i < r.2.len() ==> r.0.contains_key(#[trigger] r.2[i].0)
            &&& forall|cc: u32|
                c == Some(cc) && inner(n) && base + cc + n.dist(start) <= u32::MAX ==> r.0.contains_key(n)
                    && r.0[n] <= base + cc + n.dist(start)
        }),
{
    let r = relax(st, from, base, n, c, start);
    match c {
        None => {},
        Some(cc) => {
            let total = base + cc + n.dist(start);
            if !inner(n) || total > u32::MAX {
            } else if !st.0.contains_key(n) || st.0[n] > total {
                lemma_pot_insert(st.0, n, total as u32);
                assert(r.2[st.2.len() as int] == (n, total as u32));
            } else {
            }
        },
    }
}

/// Whether `h` is one of the first `k` neighbors of `from`.
pub open spec fn among_neighbors(from: Hex, k: int, h: Hex) -> bool {
    exists|j: int| 0 <= j < k && #[trigger] neighbor_hex(from, j) == h
}

/// What relaxing the first `k` neighbors of `from` does to the search
/// state, see [`lemma_relax_effect`].
proof fn lemma_expand_effect(
    st: SearchState,
    from: Hex,
    base: u32,
    outcomes: Seq<Option<u32>>,
    start: Hex,
    k: int,
)
    requires
        st.0.dom().finite(),
        0 <= k <= outcomes.len(),
    ensures
        ({
            let r = expand(st, from, base, outcomes, start, k);
            &&& r.0.dom().finite()
            &&& forall|h: Hex| #[trigger] st.0.contains_key(h) ==> r.0.contains_key(h) && r.0[h] <= st.0[h]
            &&& forall|h: Hex|
                #[trigger] r.0.contains_key(h) && !among_neighbors(from, k, h) ==> st.0.contains_key(h) && r.0[h]
                    == st.0[h]
            &&& forall|h: Hex|
                #[trigger] r.0.contains_key(h) && (!st.0.contains_key(h) || r.0[h] != st.0[h]) ==> inner(h)
                    && open_has(r.2, h)
            &&& r.2.len() >= st.2.len()
            &&& forall|i: int| 0 <= i < st.2.len() ==> #[trigger] r.2[i] == st.2[i]
            &&& pot(r.0) - pot(st.0) >= r.2.len() - st.2.len()
            &&& forall|i: int| st.2.len() <= i < r.2.len() ==> r.0.contains_key(#[trigger] r.2[i].0)
            &&& forall|j: int|
                0 <= j < k && (#[trigger] outcomes[j]) is Some && inner(neighbor_hex(from, j)) && base
                    + outcomes[j].unwrap() + neighbor_hex(from, j).dist(start) <= u32::MAX ==> r.0.contains_key(
                    neighbor_hex(from, j),
                ) && r.0[neighbor_hex(from, j)] <= base + outcomes[j].unwrap() + neighbor_hex(from, j).dist(start)
        }),
    decreases k,
{
    if k > 0 {
        let p = expand(st, from, base, outcomes, start, k - 1);
        lemma_expand_effect(st, from, base, outcomes, start, k - 1);
        let n = neighbor_hex(from, k - 1);
        lemma_relax_effect(p, from, base, n, outcomes[k - 1], start);
        let r = expand(st, from, base, outcomes, start, k);
        assert(r == relax(p, from, base, n, outcomes[k - 1], start));
        assert forall|h: Hex| #[trigger] r.0.contains_key(h) && !among_neighbors(from, k, h) implies st.0.contains_key(
            h,
        ) && r.0[h] == st.0[h] by {
            assert(h != n);
            assert(!among_neighbors(from, k - 1, h)) by {
                if among_neighbors(from, k - 1, h) {
                    let j = choose|j: int| 0 <= j < k - 1 && #[trigger] neighbor_hex(from, j) == h;
                    assert(0 <= j < k && neighbor_hex(from, j) == h);
                }
            }
        }
        assert forall|h: Hex|
            #[trigger] r.0.contains_key(h) && (!st.0.contains_key(h) || r.0[h] != st.0[h]) implies inner(h)
            && open_has(r.2, h) by {
            if h == n && (!p.0.contains_key(n) || r.0[n] != p.0[n]) {
            } else {
                assert(p.0.contains_key(h));
                assert(!st.0.contains_key(h) || p.0[h] != st.0[h]);
                let i = choose|i: int| 0 <= i < p.2.len() && (#[trigger] p.2[i]).0 == h;
                assert(r.2[i] == p.2[i]);
            }
        }
        assert forall|i: int| st.2.len() <= i < r.2.len() implies r.0.contains_key(#[trigger] r.2[i].0) by {
            if i < p.2.len() {
                assert(r.2[i] == p.2[i]);
                assert(p.0.contains_key(p.2[i].0));
            }
        }
        assert forall|j: int|
            0 <= j < k && (#[trigger] outcomes[j]) is Some && inner(neighbor_hex(from, j)) && base
                + outcomes[j].unwrap() + neighbor_hex(from, j).dist(start) <= u32::MAX implies r.0.contains_key(
            neighbor_hex(from, j),
        ) && r.0[neighbor_hex(from, j)] <= base + outcomes[j].unwrap() + neighbor_hex(from, j).dist(start) by {
            if j < k - 1 {
                assert(p.0.contains_key(neighbor_hex(from, j)));
            }
        }
    }
}

/// `cost` certainly gives `Some(c)` for `h`: every outcome it can have for
/// `h` is `Some(c)`.
pub open spec fn surely<F: Fn(Hex) -> Option<u32>>(cost: F, h: Hex, c: u32) -> bool {
    forall|o: Option<u32>| #[trigger] cost.ensures((h,), o) ==> o == Some(c)
}

/// Total of the chain `p` with costs `cs` at its `j`-th coordinate: each
/// step adds the cost of the coordinate entered and its distance to `start`,
/// as the search does.
pub open spec fn chain_total(p: Seq<Hex>, cs: Seq<u32>, start: Hex, j: int) -> int
    decreases j,
{
    if j <= 0 {
        0
    } else {
        chain_total(p, cs, start, j - 1) + cs[j] + p[j].dist(start)
    }
}

/// `p` goes from `start` to `end` by steps between neighbors, through inner
/// coordinates that `cost` certainly lets the search enter (at the costs
/// `cs`), with every total within `u32`: a path that the search would find.
pub open spec fn admissible_chain<F: Fn(Hex) -> Option<u32>>(
    cost: F,
    start: Hex,
    end: Hex,
    p: Seq<Hex>,
    cs: Seq<u32>,
) -> bool {
    &&& p.len() >= 1
    &&& cs.len() == p.len()
    &&& p[0] == start
    &&& p.last() == end
    &&& forall|j: int|
        1 <= j < p.len() ==> (#[trigger] p[j]).dist(p[j - 1]) == 1 && inner(p[j]) && surely(cost, p[j], cs[j])
            && chain_total(p, cs, start, j) <= u32::MAX
}

/// Every neighbor of `h` that `cost` certainly lets the search enter has a
/// total no larger than the one offered through `h`.
pub open spec fn relaxed<F: Fn(Hex) -> Option<u32>>(cost: F, m: Map<Hex, u32>, h: Hex, start: Hex) -> bool {
    forall|k: int, c: u32|
        0 <= k < 6 && #[trigger] surely(cost, neighbor_hex(h, k), c) && inner(neighbor_hex(h, k)) && m[h] + c
            + neighbor_hex(h, k).dist(start) <= u32::MAX ==> m.contains_key(neighbor_hex(h, k))
            && m[neighbor_hex(h, k)] <= m[h] + c + neighbor_hex(h, k).dist(start)
}

/// What holds of the search state between steps of the whole search:
/// `start` is recorded at `0`, recorded coordinates are inner, each of them
/// is pending or has had its neighbors relaxed, the destination is pending
/// once recorded, every linked coordinate was entered with a cost, and the
/// pending nodes are recorded and no more than the potential.
pub open spec fn search_inv<F: Fn(Hex) -> Option<u32>>(cost: F, st: SearchState, start: Hex, end: Hex) -> bool {
    &&& st.0.dom().finite()
    &&& st.0.contains_key(start)
    &&& st.0[start] == 0
    &&& forall|h: Hex| #[trigger] st.0.contains_key(h) ==> inner(h)
    &&& forall|h: Hex| #[trigger] st.0.contains_key(h) ==> open_has(st.2, h) || relaxed(cost, st.0, h, start)
    &&& st.0.contains_key(end) ==> open_has(st.2, end)
    &&& forall|h: Hex| #[trigger] st.1.contains_key(h) ==> exists|c: u32| cost.ensures((h,), Some(c))
    &&& forall|i: int| 0 <= i < st.2.len() ==> st.0.contains_key(#[trigger] st.2[i].0)
    &&& st.2.len() <= pot(st.0)
}

/// A measure of the work left to the search, which every search step
/// lowers.
pub open spec fn search_measure(st: SearchState) -> int {
    2 * (total_span() * inner_width() * inner_width() - pot(st.0)) + st.2.len()
}

/// The potential of inner recorded coordinates is bounded.
proof fn lemma_pot_bounded(m: Map<Hex, u32>)
    requires
        m.dom().finite(),
        forall|h: Hex| #[trigger] m.contains_key(h) ==> inner(h),
    ensures
        0 <= pot(m) <= total_span() * inner_width() * inner_width(),
{
    lemma_set_pot_bounds(m.dom(), m);
    lemma_inner_count(m.dom());
    let n = m.dom().len() as int;
    assert(total_span() * n <= total_span() * (inner_width() * inner_width())) by (nonlinear_arith)
        requires
            0 <= n <= inner_width() * inner_width(),
    ;
    assert(total_span() * (inner_width() * inner_width()) == total_span() * inner_width() * inner_width())
        by (nonlinear_arith);
}

/// A neighbor of an inner coordinate is a different coordinate.
proof fn lemma_neighbor_differs(h: Hex, k: int)
    requires
        inner(h),
        0 <= k < 6,
    ensures
        neighbor_hex(h, k) != h,
{
}

/// One search step that expands the pending node `i` (not the destination)
/// keeps the invariant of the whole search and lowers its measure.
pub proof fn lemma_step_keeps<F: Fn(Hex) -> Option<u32>>(
    cost: F,
    st: SearchState,
    start: Hex,
    end: Hex,
    i: int,
    outcomes: Seq<Option<u32>>,
)
    requires
        search_inv(cost, st, start, end),
        0 <= i < st.2.len(),
        st.2[i].0 != end,
        outcomes.len() == 6,
        forall|k: int| 0 <= k < 6 ==> cost.ensures((neighbor_hex(st.2[i].0, k),), #[trigger] outcomes[k]),
    ensures
        ({
            let r = expand((st.0, st.1, st.2.remove(i)), st.2[i].0, st.0[st.2[i].0], outcomes, start, 6);
            &&& search_inv(cost, r, start, end)
            &&& 0 <= search_measure(r) < search_measure(st)
        }),
{
    let node = st.2[i].0;
    let base = st.0[node];
    let rest = st.2.remove(i);
    let s0 = (st.0, st.1, rest);
    let r = expand(s0, node, base, outcomes, start, 6);
    lemma_expand_effect(s0, node, base, outcomes, start, 6);
    assert(inner(node));
    assert(rest.len() == st.2.len() - 1);
    // the expanded node keeps its total and has its neighbors relaxed
    assert(!among_neighbors(node, 6, node)) by {
        if among_neighbors(node, 6, node) {
            let j = choose|j: int| 0 <= j < 6 && #[trigger] neighbor_hex(node, j) == node;
            lemma_neighbor_differs(node, j);
        }
    }
    assert(r.0.contains_key(node) && r.0[node] == base);
    assert(relaxed(cost, r.0, node, start)) by {
        assert forall|k: int, c: u32|
            0 <= k < 6 && #[trigger] surely(cost, neighbor_hex(node, k), c) && inner(neighbor_hex(node, k)) && r.0[node]
                + c + neighbor_hex(node, k).dist(start) <= u32::MAX implies r.0.contains_key(neighbor_hex(node, k))
            && r.0[neighbor_hex(node, k)] <= r.0[node] + c + neighbor_hex(node, k).dist(start) by {
            assert(cost.ensures((neighbor_hex(node, k),), outcomes[k]));
            assert(outcomes[k] == Some(c));
        }
    }
    // pending nodes of the state before the step, other than the expanded one
    assert forall|g: Hex| #[trigger] open_has(st.2, g) && g != node implies open_has(r.2, g) by {
        let a = choose|a: int| 0 <= a < st.2.len() && (#[trigger] st.2[a]).0 == g;
        if a < i {
            assert(rest[a] == st.2[a]);
            assert(r.2[a] == rest[a]);
        } else {
            assert(a != i);
            assert(rest[a - 1] == st.2[a]);
            assert(r.2[a - 1] == rest[a - 1]);
        }
    }
    assert forall|g: Hex| #[trigger] r.0.contains_key(g) implies open_has(r.2, g) || relaxed(cost, r.0, g, start) by {
        if g == node {
        } else if !st.0.contains_key(g) || r.0[g] != st.0[g] {
        } else if open_has(st.2, g) {
        } else {
            assert(relaxed(cost, st.0, g, start));
            assert forall|k: int, c: u32|
                0 <= k < 6 && #[trigger] surely(cost, neighbor_hex(g, k), c) && inner(neighbor_hex(g, k)) && r.0[g]
                    + c + neighbor_hex(g, k).dist(start) <= u32::MAX implies r.0.contains_key(neighbor_hex(g, k))
                && r.0[neighbor_hex(g, k)] <= r.0[g] + c + neighbor_hex(g, k).dist(start) by {
                assert(st.0.contains_key(neighbor_hex(g, k)));
            }
        }
    }
    if r.0.contains_key(end) {
        if st.0.contains_key(end) && r.0[end] == st.0[end] {
            assert(open_has(st.2, end));
        }
    }
    assert forall|h: Hex| #[trigger] r.0.contains_key(h) implies inner(h) by {
        if st.0.contains_key(h) && r.0[h] == st.0[h] {
        }
    }
    assert(r.0[start] == 0);
    assert forall|h: Hex| #[trigger] r.1.contains_key(h) implies exists|c: u32| cost.ensures((h,), Some(c)) by {
        crate::pathfinding::lemma_expand_links_admitted(s0, node, base, outcomes, start, 6, h);
        if !st.1.contains_key(h) {
            let j = choose|j: int| 0 <= j < 6 && neighbor_hex(node, j) == h && #[trigger] outcomes[j] is Some;
            assert(cost.ensures((neighbor_hex(node, j),), outcomes[j]));
            assert(cost.ensures((h,), Some(outcomes[j].unwrap())));
        }
    }
    assert forall|a: int| 0 <= a < r.2.len() implies r.0.contains_key(#[trigger] r.2[a].0) by {
        if a < rest.len() {
            assert(r.2[a] == rest[a]);
            if a < i {
                assert(rest[a] == st.2[a]);
            } else {
                assert(rest[a] == st.2[a + 1]);
            }
        }
    }
    lemma_pot_bounded(r.0);
    lemma_pot_bounded(st.0);
}

/// When the invariant of the whole search holds and nothing is pending,
/// every coordinate of an admissible chain from `start` is recorded with a
/// total no larger than the chain's.
proof fn lemma_chain_recorded<F: Fn(Hex) -> Option<u32>>(
    cost: F,
    st: SearchState,
    start: Hex,
    end: Hex,
    p: Seq<Hex>,
    cs: Seq<u32>,
    j: int,
)
    requires
        search_inv(cost, st, start, end),
        st.2.len() == 0,
        admissible_chain(cost, start, end, p, cs),
        0 <= j < p.len(),
    ensures
        st.0.contains_key(p[j]),
        st.0[p[j]] <= chain_total(p, cs, start, j),
    decreases j,
{
    if j > 0 {
        lemma_chain_recorded(cost, st, start, end, p, cs, j - 1);
        let prev = p[j - 1];
        let h = p[j];
        assert(h.dist(prev) == 1 && inner(h) && surely(cost, h, cs[j]));
        assert(inner(prev));
        let k = crate::hex::lemma_norm_one_is_neighbor(h.x - prev.x, h.y - prev.y);
        assert(neighbor_hex(prev, k) == h);
        assert(!open_has(st.2, prev));
        assert(relaxed(cost, st.0, prev, start));
        assert(surely(cost, neighbor_hex(prev, k), cs[j]));
    }
}

/// When nothing is pending, no admissible chain leads from `start` to
/// `end`: an exhausted search has missed no path.
pub proof fn lemma_exhausted_no_path<F: Fn(Hex) -> Option<u32>>(
    cost: F,
    st: SearchState,
    start: Hex,
    end: Hex,
    p: Seq<Hex>,
    cs: Seq<u32>,
)
    requires
        search_inv(cost, st, start, end),
        st.2.len() == 0,
    ensures
        !admissible_chain(cost, start, end, p, cs),
{
    if admissible_chain(cost, start, end, p, cs) {
        lemma_chain_recorded(cost, st, start, end, p, cs, p.len() - 1);
        assert(st.0.contains_key(end));
    }
}

/// Performs A* path finding from `start` to `end`: `cost` gives the cost of
/// entering each coordinate, or `None` for a coordinate that cannot be
/// entered. Returns the path found, from `start` to `end`, or `None` when
/// the search explored everything it could reach without finding `end`.
pub fn a_star<F: Fn(Hex) -> Option<u32>>(start: Hex, end: Hex, cost: F) -> (r: Option<Vec<Hex>>)
    requires
        inner(start) || start == end,
        forall|h: Hex| cost.requires((h,)),
    ensures
        r matches Some(p) ==> p@.len() > 0 && p@[0] == start && p@.last() == end && (forall|j: int|
            0 <= j < p@.len() - 1 ==> (#[trigger] p@[j]).dist(p@[j + 1]) == 1) && (forall|j: int|
            1 <= j < p@.len() ==> exists|c: u32| cost.ensures((#[trigger] p@[j],), Some(c))),
        r is None ==> forall|p: Seq<Hex>, cs: Seq<u32>| !admissible_chain(cost, start, end, p, cs),
{
    if start == end {
        return Some(vec![start]);
    }
    let mut search = AStar::new(start, end);
    proof {
        let st = search.state();
        assert(st.0.dom() =~= set![start]);
        lemma_set_pot_remove(st.0.dom(), st.0, start);
        assert(st.0.dom().remove(start) =~= Set::<Hex>::empty());
        assert(open_has(st.2, start)) by {
            assert(st.2[0].0 == start);
        }
    }
    loop
        invariant
            forall|h: Hex| cost.requires((h,)),
            search.start_spec() == start,
            search.end_spec() == end,
            search_inv(cost, search.state(), start, end),
        decreases search_measure(search.state()),
    {
        let ghost st = search.state();
        let step = search.step(&cost);
        match step {
            AStarStep::Found(path) => {
                proof {
                    let i = choose|i: int|
                        {
                            &&& crate::pathfinding::first_min(st.2, i)
                            &&& ({
                                let node = st.2[i];
                                let rest = st.2.remove(i);
                                if node.0 == end {
                                    &&& step matches AStarStep::Found(path) && path@ == path_to(
                                        st.1,
                                        node.0,
                                        (st.0[node.0] + 1) as nat,
                                    )
                                    &&& search.state() == (st.0, st.1, rest)
                                } else {
                                    &&& step is Searching
                                    &&& exists|outcomes: Seq<Option<u32>>|
                                        {
                                            &&& outcomes.len() == 6
                                            &&& forall|k: int|
                                                0 <= k < 6 ==> cost.ensures(
                                                    (neighbor_hex(node.0, k),),
                                                    #[trigger] outcomes[k],
                                                )
                                            &&& search.state() == expand(
                                                (st.0, st.1, rest),
                                                node.0,
                                                st.0[node.0],
                                                outcomes,
                                                start,
                                                6,
                                            )
                                        }
                                }
                            })
                        };
                    let fuel = (st.0[end] + 1) as nat;
                    crate::pathfinding::lemma_path_linked(st.1, end, fuel);
                    assert forall|j: int| 1 <= j < path@.len() implies exists|c: u32|
                        cost.ensures((#[trigger] path@[j],), Some(c)) by {
                        assert(st.1.contains_key(path_to(st.1, end, fuel)[j]));
                    }
                }
                return Some(path);
            },
            AStarStep::Exhausted => {
                proof {
                    assert forall|p: Seq<Hex>, cs: Seq<u32>| !admissible_chain(cost, start, end, p, cs) by {
                        lemma_exhausted_no_path(cost, st, start, end, p, cs);
                    }
                }
                return None;
            },
            AStarStep::Searching => {
                proof {
                    let i = choose|i: int|
                        {
                            &&& crate::pathfinding::first_min(st.2, i)
                            &&& ({
                                let node = st.2[i];
                                let rest = st.2.remove(i);
                                if node.0 == end {
                                    &&& step matches AStarStep::Found(path) && path@ == path_to(
                                        st.1,
                                        node.0,
                                        (st.0[node.0] + 1) as nat,
                                    )
                                    &&& search.state() == (st.0, st.1, rest)
                                } else {
                                    &&& step is Searching
                                    &&& exists|outcomes: Seq<Option<u32>>|
                                        {
                                            &&& outcomes.len() == 6
                                            &&& forall|k: int|
                                                0 <= k < 6 ==> cost.ensures(
                                                    (neighbor_hex(node.0, k),),
                                                    #[trigger] outcomes[k],
                                                )
                                            &&& search.state() == expand(
                                                (st.0, st.1, rest),
                                                node.0,
                                                st.0[node.0],
                                                outcomes,
                                                start,
                                                6,
                                            )
                                        }
                                }
                            })
                        };
                    let node = st.2[i];
                    let outcomes = choose|outcomes: Seq<Option<u32>>|
                        {
                            &&& outcomes.len() == 6
                            &&& forall|k: int|
                                0 <= k < 6 ==> cost.ensures((neighbor_hex(node.0, k),), #[trigger] outcomes[k])
                            &&& search.state() == expand(
                                (st.0, st.1, st.2.remove(i)),
                                node.0,
                                st.0[node.0],
                                outcomes,
                                start,
                                6,
                            )
                        };
                    lemma_step_keeps(cost, st, start, end, i, outcomes);
                }
            },
        }
    }
}

} // verus!
