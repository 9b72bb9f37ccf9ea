//! Field of movement: the coordinates reachable from a start within a
//! movement budget, given the cost of entering each coordinate.
use crate::hex::{hex_norm, neighbor_x, neighbor_y, Hex};
use crate::shapes::{range_fits, spiral_seq};
use vstd::prelude::*;

verus! {

/// The value stored for `k` in `m`, if any.
pub open spec fn map_get(m: Map<Hex, u32>, k: Hex) -> Option<u32> {
    if m.contains_key(k) {
        Some(m[k])
    } else {
        None
    }
}

/// The map made of `entries`, later entries overriding earlier ones.
pub open spec fn entries_map(entries: Seq<(Hex, u32)>) -> Map<Hex, u32>
    decreases entries.len(),
{
    if entries.len() == 0 {
        Map::empty()
    } else {
        entries_map(entries.drop_last()).insert(entries.last().0, entries.last().1)
    }
}

/// The `k`-th neighbor of `h`, in `Direction` order.
pub open spec fn neighbor_hex(h: Hex, k: int) -> Hex {
    Hex { x: (h.x + neighbor_x(k)) as i32, y: (h.y + neighbor_y(k)) as i32 }
}

/// The smallest of two optional values, ignoring missing ones.
pub open spec fn opt_min(a: Option<u32>, b: Option<u32>) -> Option<u32> {
    match (a, b) {
        (None, _) => b,
        (_, None) => a,
        (Some(x), Some(y)) => Some(
            if x <= y {
                x
            } else {
                y
            },
        ),
    }
}

/// The smallest cost recorded in `m` among the first `k` neighbors of `h`.
pub open spec fn min_neighbor_cost(m: Map<Hex, u32>, h: Hex, k: int) -> Option<u32>
    decreases k,
{
    if k <= 0 {
        None
    } else {
        opt_min(min_neighbor_cost(m, h, k - 1), map_get(m, neighbor_hex(h, k - 1)))
    }
}

/// One step of the field of movement computation: the coordinate `h`, whose
/// cost is `c` (`None` when it cannot be entered), is reached when some of
/// its neighbors already is and the cheapest of those, plus one, plus `c`
/// stays within `budget`; it is then recorded with that total.
pub open spec fn movement_step(state: (Map<Hex, u32>, Seq<Hex>), h: Hex, c: Option<u32>, budget: int) -> (
    Map<Hex, u32>,
    Seq<Hex>,
) {
    match c {
        None => state,
        Some(c) => match min_neighbor_cost(state.0, h, 6) {
            None => state,
            Some(m) => if c + 1 + m <= budget {
                (state.0.insert(h, (c + 1 + m) as u32), state.1.push(h))
            } else {
                state
            },
        },
    }
}

/// The recorded totals and the reached coordinates after processing the
/// `cells` with their `costs`, in order, starting from `start` at total `0`.
pub open spec fn movement_run(start: Hex, cells: Seq<Hex>, costs: Seq<Option<u32>>, budget: int) -> (
    Map<Hex, u32>,
    Seq<Hex>,
)
    decreases cells.len(),
{
    if cells.len() == 0 {
        (Map::empty().insert(start, 0u32), Seq::empty())
    } else {
        movement_step(
            movement_run(start, cells.drop_last(), costs.take(cells.len() - 1), budget),
            cells.last(),
            costs[cells.len() - 1],
            budget,
        )
    }
}

/// Every reached coordinate is one of the processed cells.
pub proof fn lemma_movement_reaches_cells(start: Hex, cells: Seq<Hex>, costs: Seq<Option<u32>>, budget: int)
    ensures
        forall|i: int|
            0 <= i < movement_run(start, cells, costs, budget).1.len() ==> cells.contains(
                #[trigger] movement_run(start, cells, costs, budget).1[i],
            ),
    decreases cells.len(),
{
    if cells.len() > 0 {
        let front = cells.drop_last();
        let front_costs = costs.take(cells.len() - 1);
        lemma_movement_reaches_cells(start, front, front_costs, budget);
        let prev = movement_run(start, front, front_costs, budget).1;
        let out = movement_run(start, cells, costs, budget).1;
        assert forall|i: int| 0 <= i < out.len() implies cells.contains(#[trigger] out[i]) by {
            if i < prev.len() {
                assert(out[i] == prev[i]);
                assert(front.contains(prev[i]));
                let j = choose|j: int| 0 <= j < front.len() && front[j] == prev[i];
                assert(cells[j] == prev[i]);
            } else {
                assert(out[i] == cells.last());
                assert(cells[cells.len() - 1] == out[i]);
            }
        }
    }
}

/// When no cell is processed twice, no coordinate is reached twice.
pub proof fn lemma_movement_no_duplicates(start: Hex, cells: Seq<Hex>, costs: Seq<Option<u32>>, budget: int)
    requires
        cells.no_duplicates(),
    ensures
        movement_run(start, cells, costs, budget).1.no_duplicates(),
    decreases cells.len(),
{
    if cells.len() > 0 {
        let front = cells.drop_last();
        let front_costs = costs.take(cells.len() - 1);
        assert(front.no_duplicates()) by {
            assert forall|i: int, j: int| 0 <= i < front.len() && 0 <= j < front.len() && i != j implies front[i]
                != front[j] by {
                assert(front[i] == cells[i] && front[j] == cells[j]);
            }
        }
        lemma_movement_no_duplicates(start, front, front_costs, budget);
        lemma_movement_reaches_cells(start, front, front_costs, budget);
        let prev = movement_run(start, front, front_costs, budget).1;
        let out = movement_run(start, cells, costs, budget).1;
        if out.len() > prev.len() {
            assert(out == prev.push(cells.last()));
            assert forall|i: int| 0 <= i < prev.len() implies prev[i] != cells.last() by {
                assert(front.contains(prev[i]));
                let j = choose|j: int| 0 <= j < front.len() && front[j] == prev[i];
                assert(cells[j] == prev[i]);
                assert(cells[cells.len() - 1] == cells.last());
            }
            assert forall|i: int, j: int| 0 <= i < out.len() && 0 <= j < out.len() && i != j implies out[i]
                != out[j] by {
                if i < prev.len() && j < prev.len() {
                    assert(out[i] == prev[i] && out[j] == prev[j]);
                } else if i < prev.len() {
                    assert(out[i] == prev[i] && out[j] == cells.last());
                } else if j < prev.len() {
                    assert(out[j] == prev[j] && out[i] == cells.last());
                }
            }
        }
    }
}

/// The spiral lists its coordinates ring after ring: by non decreasing
/// distance to its center.
proof fn lemma_spiral_ordered(c: Hex, n: int)
    requires
        n >= 1,
        range_fits(c, n - 1),
    ensures
        forall|i: int, j: int|
            0 <= i <= j < spiral_seq(c, n, 0, false).len() ==> (#[trigger] spiral_seq(c, n, 0, false)[i]).dist(c)
                <= (#[trigger] spiral_seq(c, n, 0, false)[j]).dist(c),
    decreases n,
{
    let s = spiral_seq(c, n, 0, false);
    let front = spiral_seq(c, n - 1, 0, false);
    let ring = crate::shapes::ring_seq(c, n - 1, 0, false);
    assert(s == front + ring);
    if n > 1 {
        lemma_spiral_ordered(c, n - 1);
        crate::shapes::lemma_spiral_no_duplicates(c, n - 1);
    } else {
        assert(front.len() == 0);
    }
    assert forall|i: int, j: int| 0 <= i <= j < s.len() implies (#[trigger] s[i]).dist(c) <= (#[trigger] s[j]).dist(
        c,
    ) by {
        if j >= front.len() {
            crate::shapes::lemma_ring_distance(c, n - 1, 0, false, j - front.len());
            assert(s[j] == ring[j - front.len()]);
            if i < front.len() {
                assert(s[i] == front[i]);
            } else {
                assert(s[i] == ring[i - front.len()]);
                crate::shapes::lemma_ring_distance(c, n - 1, 0, false, i - front.len());
            }
        } else {
            assert(s[i] == front[i] && s[j] == front[j]);
        }
    }
}

/// A spiral starts at its center.
proof fn lemma_spiral_first(c: Hex, n: int)
    requires
        n >= 1,
    ensures
        spiral_seq(c, n, 0, false).len() >= 1,
        spiral_seq(c, n, 0, false)[0] == c,
    decreases n,
{
    let front = spiral_seq(c, n - 1, 0, false);
    let ring = crate::shapes::ring_seq(c, n - 1, 0, false);
    assert(spiral_seq(c, n, 0, false) == front + ring);
    if n > 1 {
        lemma_spiral_first(c, n - 1);
    } else {
        assert(front.len() == 0);
        assert(ring[0] == c);
    }
}

/// The cells a field of movement of budget `budget` around `coord`
/// processes are the coordinates `1 ..= budget` steps away from `coord`,
/// each once, by non decreasing distance to `coord`.
pub proof fn lemma_movement_cells_law(coord: Hex, budget: int)
    requires
        budget >= 0,
        range_fits(coord, budget),
    ensures
        forall|h: Hex| movement_cells(coord, budget).contains(h) <==> 1 <= h.dist(coord) <= budget,
        movement_cells(coord, budget).no_duplicates(),
        forall|i: int, j: int|
            0 <= i <= j < movement_cells(coord, budget).len() ==> (#[trigger] movement_cells(coord, budget)[i]).dist(
                coord,
            ) <= (#[trigger] movement_cells(coord, budget)[j]).dist(coord),
{
    let s = spiral_seq(coord, budget + 1, 0, false);
    let cells = movement_cells(coord, budget);
    crate::shapes::lemma_spiral_is_range_permutation(coord, budget);
    lemma_spiral_ordered(coord, budget + 1);
    lemma_spiral_first(coord, budget + 1);
    assert forall|h: Hex| cells.contains(h) <==> 1 <= h.dist(coord) <= budget by {
        if cells.contains(h) {
            let i = choose|i: int| 0 <= i < cells.len() && cells[i] == h;
            assert(s[i + 1] == h);
            assert(s.contains(h));
            assert(h != coord);
        }
        if 1 <= h.dist(coord) <= budget {
            assert(s.contains(h));
            let i = choose|i: int| 0 <= i < s.len() && s[i] == h;
            assert(i != 0);
            assert(cells[i - 1] == h);
        }
    }
    assert forall|i: int, j: int| 0 <= i < cells.len() && 0 <= j < cells.len() && i != j implies cells[i]
        != cells[j] by {
        assert(cells[i] == s[i + 1] && cells[j] == s[j + 1]);
    }
    assert forall|i: int, j: int| 0 <= i <= j < cells.len() implies (#[trigger] cells[i]).dist(coord) <= (
    #[trigger] cells[j]).dist(coord) by {
        assert(cells[i] == s[i + 1] && cells[j] == s[j + 1]);
    }
}

/// The smallest recorded neighbor total: `None` exactly when none of the
/// first `k` neighbors is recorded, else the total of one of them that is no
/// larger than any other.
proof fn lemma_min_neighbor_cost(m: Map<Hex, u32>, h: Hex, k: int)
    requires
        0 <= k <= 6,
    ensures
        min_neighbor_cost(m, h, k) is None <==> forall|j: int|
            0 <= j < k ==> !m.contains_key(#[trigger] neighbor_hex(h, j)),
        min_neighbor_cost(m, h, k) matches Some(v) ==> (exists|j: int|
            0 <= j < k && m.contains_key(#[trigger] neighbor_hex(h, j)) && m[neighbor_hex(h, j)] == v) && (
        forall|j: int| 0 <= j < k && m.contains_key(#[trigger] neighbor_hex(h, j)) ==> v <= m[neighbor_hex(h, j)]),
    decreases k,
{
    if k > 0 {
        lemma_min_neighbor_cost(m, h, k - 1);
        let n = neighbor_hex(h, k - 1);
        match min_neighbor_cost(m, h, k - 1) {
            None => {
                if m.contains_key(n) {
                    assert(min_neighbor_cost(m, h, k) == Some(m[n]));
                }
            },
            Some(v) => {
                let j0 = choose|j: int|
                    0 <= j < k - 1 && m.contains_key(#[trigger] neighbor_hex(h, j)) && m[neighbor_hex(h, j)] == v;
                if m.contains_key(n) && m[n] < v {
                    assert(min_neighbor_cost(m, h, k) == Some(m[n]));
                } else {
                    assert(min_neighbor_cost(m, h, k) == Some(v));
                }
                assert(0 <= j0 < k && m.contains_key(neighbor_hex(h, j0)));
            },
        }
    }
}

/// How the field of movement handles the `i`-th processed coordinate `h`:
/// a coordinate that cannot be entered, or that has no reached neighbor yet,
/// changes nothing; otherwise, with `t` the smallest total among its reached
/// neighbors, `h` is reached, with total exactly its cost plus one plus `t`,
/// when that sum is within the budget, and is left out when it is not.
pub proof fn lemma_movement_law(start: Hex, cells: Seq<Hex>, costs: Seq<Option<u32>>, budget: int, i: int)
    requires
        0 <= i < cells.len(),
        cells.len() == costs.len(),
    ensures
        movement_run(start, cells.take(0), costs.take(0), budget) == (
            Map::<Hex, u32>::empty().insert(start, 0u32),
            Seq::<Hex>::empty(),
        ),
        movement_run(start, cells.take(cells.len() as int), costs.take(cells.len() as int), budget)
            == movement_run(start, cells, costs, budget),
        ({
            let before = movement_run(start, cells.take(i), costs.take(i), budget);
            let after = movement_run(start, cells.take(i + 1), costs.take(i + 1), budget);
            let h = cells[i];
            &&& costs[i] is None ==> after == before
            &&& (forall|k: int| 0 <= k < 6 ==> !before.0.contains_key(#[trigger] neighbor_hex(h, k))) ==> after
                == before
            &&& forall|k: int|
                0 <= k < 6 && costs[i] is Some && before.0.contains_key(#[trigger] neighbor_hex(h, k)) && (forall|
                    k2: int,
                |
                    0 <= k2 < 6 && before.0.contains_key(#[trigger] neighbor_hex(h, k2)) ==> before.0[neighbor_hex(
                        h,
                        k,
                    )] <= before.0[neighbor_hex(h, k2)]) ==> if costs[i].unwrap() + 1 + before.0[neighbor_hex(h, k)]
                    <= budget {
                    &&& after.0 == before.0.insert(
                        h,
                        (costs[i].unwrap() + 1 + before.0[neighbor_hex(h, k)]) as u32,
                    )
                    &&& after.1 == before.1.push(h)
                } else {
                    after == before
                }
        }),
{
    let before = movement_run(start, cells.take(i), costs.take(i), budget);
    let h = cells[i];
    assert(cells.take(cells.len() as int) =~= cells);
    assert(costs.take(costs.len() as int) =~= costs);
    assert(cells.take(0).len() == 0);
    assert(cells.take(i + 1).drop_last() =~= cells.take(i));
    assert(costs.take(i + 1).take(i) =~= costs.take(i));
    assert(cells.take(i + 1).last() == h);
    assert(costs.take(i + 1)[i] == costs[i]);
    lemma_min_neighbor_cost(before.0, h, 6);
    assert forall|k: int|
        0 <= k < 6 && costs[i] is Some && before.0.contains_key(#[trigger] neighbor_hex(h, k)) && (forall|k2: int|
            0 <= k2 < 6 && before.0.contains_key(#[trigger] neighbor_hex(h, k2)) ==> before.0[neighbor_hex(h, k)]
                <= before.0[neighbor_hex(h, k2)]) implies min_neighbor_cost(before.0, h, 6) == Some(
        before.0[neighbor_hex(h, k)],
    ) by {
        let v = min_neighbor_cost(before.0, h, 6).unwrap();
        let j = choose|j: int|
            0 <= j < 6 && before.0.contains_key(#[trigger] neighbor_hex(h, j)) && before.0[neighbor_hex(h, j)] == v;
    }
}

/// The coordinates of the rings of radius `1 ..= budget` around `coord`, ring
/// after ring.
pub open spec fn movement_cells(coord: Hex, budget: int) -> Seq<Hex> {
    spiral_seq(coord, budget + 1, 0, false).skip(1)
}

/// The value stored for `h` in the map made of `entries`.
pub(crate) fn lookup(entries: &Vec<(Hex, u32)>, h: Hex) -> (r: Option<u32>)
    ensures
        r == map_get(entries_map(entries@), h),
{
    let mut j = entries.len();
    assert(entries@.take(j as int) =~= entries@);
    while j > 0
        invariant
            j <= entries.len(),
            map_get(entries_map(entries@), h) == map_get(entries_map(entries@.take(j as int)), h),
        decreases j,
    {
        let (k, v) = entries[j - 1];
        proof {
            let t = entries@.take(j as int);
            assert(t.drop_last() =~= entries@.take(j - 1));
            assert(t.last() == (k, v));
        }
        if k == h {
            return Some(v);
        }
        j -= 1;
    }
    assert(entries@.take(0) =~= Seq::<(Hex, u32)>::empty());
    None
}

/// The smallest recorded cost among the neighbors of `h`.
fn cheapest_neighbor(entries: &Vec<(Hex, u32)>, h: Hex) -> (r: Option<u32>)
    requires
        i32::MIN < h.x < i32::MAX,
        i32::MIN < h.y < i32::MAX,
    ensures
        r == min_neighbor_cost(entries_map(entries@), h, 6),
{
    let neighbors = h.all_neighbors();
    let mut best: Option<u32> = None;
    let mut k: usize = 0;
    while k < 6
        invariant
            0 <= k <= 6,
            forall|i: int|
                0 <= i < 6 ==> (#[trigger] neighbors[i]).x == h.x + neighbor_x(i) && neighbors[i].y == h.y
                    + neighbor_y(i),
            best == min_neighbor_cost(entries_map(entries@), h, k as int),
        decreases 6 - k,
    {
        let n = neighbors[k];
        assert(n == neighbor_hex(h, k as int));
        let v = lookup(entries, n);
        best = match (best, v) {
            (None, _) => v,
            (_, None) => best,
            (Some(a), Some(b)) => Some(
                if a <= b {
                    a
                } else {
                    b
                },
            ),
        };
        k += 1;
    }
    best
}

/// Computes the coordinates reachable from `coord` within `budget`, given
/// the cost of entering each of the `cells` (`None` when it cannot be
/// entered), processed in order: a cell is reached when one of its
/// neighbors is, and the cheapest of those plus one plus its own cost stays
/// within `budget`. Returns the reached cells in order.
pub fn field_of_movement_with_costs(coord: Hex, budget: u32, cells: &[Hex], costs: &[Option<u32>]) -> (r: Vec<
    Hex,
>)
    requires
        cells.len() == costs.len(),
        forall|i: int|
            0 <= i < cells.len() ==> i32::MIN < (#[trigger] cells[i]).x < i32::MAX && i32::MIN < cells[i].y
                < i32::MAX,
    ensures
        r@ == movement_run(coord, cells@, costs@, budget as int).1,
        cells@.no_duplicates() ==> r@.no_duplicates(),
{
    let mut entries: Vec<(Hex, u32)> = Vec::new();
    entries.push((coord, 0));
    let mut out: Vec<Hex> = Vec::new();
    let mut i: usize = 0;
    proof {
        assert(entries_map(entries@) =~= entries_map(Seq::<(Hex, u32)>::empty()).insert(coord, 0u32)) by {
            assert(entries@.drop_last() =~= Seq::<(Hex, u32)>::empty());
        }
        assert(cells@.take(0) =~= Seq::<Hex>::empty());
    }
    while i < cells.len()
        invariant
            0 <= i <= cells.len(),
            cells.len() == costs.len(),
            forall|k: int|
                0 <= k < cells.len() ==> i32::MIN < (#[trigger] cells[k]).x < i32::MAX && i32::MIN < cells[k].y
                    < i32::MAX,
            entries_map(entries@) == movement_run(coord, cells@.take(i as int), costs@.take(i as int), budget as int).0,
            out@ == movement_run(coord, cells@.take(i as int), costs@.take(i as int), budget as int).1,
        decreases cells.len() - i,
    {
        let h = cells[i];
        let c = costs[i];
        proof {
            let t = cells@.take(i + 1);
            assert(t.drop_last() =~= cells@.take(i as int));
            assert(costs@.take(i + 1).take(i as int) =~= costs@.take(i as int));
            assert(t.last() == h);
        }
        match c {
            None => {},
            Some(c) => {
                let m = cheapest_neighbor(&entries, h);
                match m {
                    None => {},
                    Some(m) => {
                        let total = c as u64 + 1 + m as u64;
                        if total <= budget as u64 {
                            let ghost before = entries@;
                            entries.push((h, total as u32));
                            out.push(h);
                            proof {
                                assert(entries@.drop_last() =~= before);
                            }
                        }
                    },
                }
            },
        }
        i += 1;
    }
    proof {
        assert(cells@.take(cells.len() as int) =~= cells@);
        assert(costs@.take(costs.len() as int) =~= costs@);
        if cells@.no_duplicates() {
            lemma_movement_no_duplicates(coord, cells@, costs@, budget as int);
        }
    }
    out
}

/// Computes the coordinates reachable from `coord` within `budget` moves,
/// where entering a coordinate costs one plus what `cost` returns for it
/// (`None` for coordinates that cannot be entered). The rings around `coord`
/// are explored from the inside out; the reached coordinates are returned in
/// that order, `coord` itself excluded.
pub fn field_of_movement<F: Fn(Hex) -> Option<u32>>(coord: Hex, budget: u32, cost: F) -> (r: Vec<Hex>)
    requires
        range_fits(coord, budget + 1),
        6 * budget <= usize::MAX,
        forall|h: Hex| cost.requires((h,)),
    ensures
        forall|i: int| 0 <= i < r.len() ==> (#[trigger] r@[i]).dist(coord) <= budget,
        r@.no_duplicates(),
        exists|costs: Seq<Option<u32>>|
            {
                &&& costs.len() == movement_cells(coord, budget as int).len()
                &&& forall|i: int|
                    0 <= i < costs.len() ==> cost.ensures((movement_cells(coord, budget as int)[i],), costs[i])
                &&& r@ == movement_run(coord, movement_cells(coord, budget as int), costs, budget as int).1
            },
{
    let spiral = coord.spiral_range(budget);
    let ghost cells_view = movement_cells(coord, budget as int);
    let mut cells: Vec<Hex> = Vec::new();
    let mut costs: Vec<Option<u32>> = Vec::new();
    let mut i: usize = 1;
    assert(spiral@.skip(1).len() == spiral.len() - 1);
    while i < spiral.len()
        invariant
            1 <= i <= spiral.len(),
            spiral@ == spiral_seq(coord, budget + 1, 0, false),
            cells_view == spiral@.skip(1),
            forall|k: int| 0 <= k < spiral.len() ==> (#[trigger] spiral@[k]).dist(coord) <= budget,
            range_fits(coord, budget + 1),
            forall|h: Hex| cost.requires((h,)),
            cells@ == cells_view.take(i - 1),
            costs.len() == cells.len(),
            forall|k: int| 0 <= k < costs.len() ==> cost.ensures((cells_view[k],), costs@[k]),
        decreases spiral.len() - i,
    {
        let h = spiral[i];
        let c = cost(h);
        cells.push(h);
        costs.push(c);
        proof {
            assert(cells_view[i - 1] == h);
            assert(cells@ =~= cells_view.take(i as int));
        }
        i += 1;
    }
    proof {
        assert(cells@ =~= cells_view);
        assert forall|k: int| 0 <= k < cells.len() implies i32::MIN < (#[trigger] cells@[k]).x < i32::MAX
            && i32::MIN < cells@[k].y < i32::MAX by {
            assert(cells@[k] == spiral@[k + 1]);
            assert(spiral@[k + 1].dist(coord) <= budget);
        }
    }
    let r = field_of_movement_with_costs(coord, budget, cells.as_slice(), costs.as_slice());
    proof {
        assert(costs@.len() == cells_view.len());
        lemma_movement_reaches_cells(coord, cells@, costs@, budget as int);
        crate::shapes::lemma_spiral_no_duplicates(coord, budget + 1);
        assert(cells@.no_duplicates()) by {
            assert forall|a: int, b: int| 0 <= a < cells.len() && 0 <= b < cells.len() && a != b implies cells@[a]
                != cells@[b] by {
                assert(cells@[a] == spiral@[a + 1] && cells@[b] == spiral@[b + 1]);
            }
        }
        assert forall|i: int| 0 <= i < r.len() implies (#[trigger] r@[i]).dist(coord) <= budget by {
            assert(cells@.contains(r@[i]));
            let j = choose|j: int| 0 <= j < cells.len() && cells@[j] == r@[i];
            assert(cells@[j] == spiral@[j + 1]);
        }
    }
    r
}

/// Moving to a neighbor changes the hexagonal length by at most one.
proof fn lemma_neighbor_norm(x: int, y: int, j: int)
    requires
        0 <= j < 6,
    ensures
        hex_norm(x, y) - 1 <= hex_norm(x + neighbor_x(j), y + neighbor_y(j)) <= hex_norm(x, y) + 1,
{
}

/// Some neighbor of a nonzero offset is one step closer to the origin.
proof fn lemma_step_toward(x: int, y: int) -> (j: int)
    requires
        hex_norm(x, y) >= 1,
    ensures
        0 <= j < 6,
        hex_norm(x + neighbor_x(j), y + neighbor_y(j)) == hex_norm(x, y) - 1,
{
    if x > 0 && y < 0 {
        3
    } else if x >= 0 && y >= 0 {
        if x > 0 {
            2
        } else {
            1
        }
    } else if x < 0 && y > 0 {
        0
    } else {
        if x < 0 {
            5
        } else {
            4
        }
    }
}

/// Uniform costs: the cost of every coordinate is `c`.
pub open spec fn uniform_costs(n: int, c: u32) -> Seq<Option<u32>> {
    Seq::new(n as nat, |i: int| Some(c))
}

/// The neighbors of a coordinate `k` steps away from `start`, when every
/// recorded total is `c + 1` per step: the recorded ones have totals of at
/// least `(k - 1) * (c + 1)`, and one of them is one step closer to `start`.
proof fn lemma_uniform_neighbors(start: Hex, budget: int, c: u32, h: Hex, m: Map<Hex, u32>) -> (j0: int)
    requires
        range_fits(start, budget + 1),
        1 <= h.dist(start) <= budget,
        forall|g: Hex| #[trigger] m.contains_key(g) ==> m[g] == g.dist(start) * (c + 1),
    ensures
        0 <= j0 < 6,
        neighbor_hex(h, j0).dist(start) == h.dist(start) - 1,
        forall|j: int|
            0 <= j < 6 && m.contains_key(#[trigger] neighbor_hex(h, j)) ==> m[neighbor_hex(h, j)] >= (h.dist(start)
                - 1) * (c + 1),
        h.dist(start) * (c + 1) == (h.dist(start) - 1) * (c + 1) + c + 1,
{
    let k = h.dist(start);
    let (dx, dy) = (h.x - start.x, h.y - start.y);
    assert forall|j: int| 0 <= j < 6 && m.contains_key(#[trigger] neighbor_hex(h, j)) implies m[neighbor_hex(h, j)]
        >= (k - 1) * (c + 1) by {
        lemma_neighbor_norm(dx, dy, j);
        let d = neighbor_hex(h, j).dist(start);
        assert(d >= k - 1);
        assert(d * (c + 1) >= (k - 1) * (c + 1)) by (nonlinear_arith)
            requires
                d >= k - 1,
                c >= 0,
        ;
    }
    let j0 = lemma_step_toward(dx, dy);
    assert(k * (c + 1) == (k - 1) * (c + 1) + c + 1) by (nonlinear_arith);
    j0
}

/// What the first `i` processed cells give when every coordinate costs
/// `c`: exactly `start` and the processed cells `k` steps away with
/// `k * (c + 1)` within the budget are recorded, at total `k * (c + 1)`,
/// and those cells are the reached ones.
#[verifier::spinoff_prover]
#[verifier::rlimit(80)]
proof fn lemma_movement_uniform_prefix(start: Hex, budget: int, c: u32, i: int)
    requires
        budget >= 0,
        range_fits(start, budget + 1),
        0 <= i <= movement_cells(start, budget).len(),
    ensures
        ({
            let cells = movement_cells(start, budget);
            let costs = uniform_costs(cells.len() as int, c);
            let st = movement_run(start, cells.take(i), costs.take(i), budget);
            &&& forall|g: Hex|
                #[trigger] st.0.contains_key(g) <==> (g == start || (cells.take(i).contains(g) && g.dist(start) * (
                c + 1) <= budget))
            &&& forall|g: Hex| #[trigger] st.0.contains_key(g) ==> st.0[g] == g.dist(start) * (c + 1)
            &&& forall|g: Hex|
                #[trigger] st.1.contains(g) <==> (cells.take(i).contains(g) && g.dist(start) * (c + 1) <= budget)
        }),
    decreases i,
{
    let cells = movement_cells(start, budget);
    let costs = uniform_costs(cells.len() as int, c);
    lemma_movement_cells_law(start, budget);
    assert(cells.len() == costs.len());
    if i == 0 {
        if cells.len() > 0 {
            lemma_movement_law(start, cells, costs, budget, 0);
        } else {
            assert(cells.take(0) =~= Seq::<Hex>::empty());
            assert(costs.take(0) =~= Seq::<Option<u32>>::empty());
        }
        assert(start.dist(start) == 0);
        assert(0 * (c + 1) == 0);
        assert(cells.take(0).len() == 0);
    } else {
        let p = i - 1;
        lemma_movement_uniform_prefix(start, budget, c, p);
        lemma_movement_law(start, cells, costs, budget, p);
        let before = movement_run(start, cells.take(p), costs.take(p), budget);
        let after = movement_run(start, cells.take(i), costs.take(i), budget);
        let h = cells[p];
        let k = h.dist(start);
        assert(cells.contains(h));
        assert(1 <= k <= budget);
        assert(costs[p] == Some(c));
        // `h` was not processed before
        assert(!cells.take(p).contains(h)) by {
            if cells.take(p).contains(h) {
                let q = choose|q: int| 0 <= q < p && cells.take(p)[q] == h;
                assert(cells[q] == cells[p]);
            }
        }
        assert(h != start);
        assert(!before.0.contains_key(h));
        assert forall|g: Hex| cells.take(i).contains(g) <==> (cells.take(p).contains(g) || g == h) by {
            if cells.take(i).contains(g) {
                let q = choose|q: int| 0 <= q < i && cells.take(i)[q] == g;
                if q < p {
                    assert(cells.take(p)[q] == g);
                }
            }
            if cells.take(p).contains(g) {
                let q = choose|q: int| 0 <= q < p && cells.take(p)[q] == g;
                assert(cells.take(i)[q] == g);
            }
            if g == h {
                assert(cells.take(i)[p] == g);
            }
        }
        let j0 = lemma_uniform_neighbors(start, budget, c, h, before.0);
        let n0 = neighbor_hex(h, j0);
        if k * (c + 1) <= budget {
            assert((k - 1) * (c + 1) <= budget) by (nonlinear_arith)
                requires
                    k * (c + 1) <= budget,
                    k >= 1,
                    c >= 0,
            ;
            assert(before.0.contains_key(n0)) by {
                if k - 1 == 0 {
                    assert(n0 == start);
                } else {
                    assert(cells.contains(n0));
                    let q = choose|q: int| 0 <= q < cells.len() && cells[q] == n0;
                    if q >= p {
                        assert(cells[p].dist(start) <= cells[q].dist(start));
                    }
                    assert(cells.take(p)[q] == n0);
                }
            }
            assert(before.0[n0] == (k - 1) * (c + 1));
            assert(after.0 == before.0.insert(h, (c + 1 + before.0[n0]) as u32));
            assert(after.1 == before.1.push(h));
            assert forall|g: Hex| #[trigger] after.1.contains(g) <==> (cells.take(i).contains(g) && g.dist(start) * (c
                + 1) <= budget) by {
                if after.1.contains(g) && g != h {
                    let q = choose|q: int| 0 <= q < after.1.len() && after.1[q] == g;
                    assert(before.1[q] == g);
                }
                if before.1.contains(g) {
                    let q = choose|q: int| 0 <= q < before.1.len() && before.1[q] == g;
                    assert(after.1[q] == g);
                }
                if g == h {
                    assert(after.1[before.1.len() as int] == h);
                }
            }
        } else {
            if exists|j: int| 0 <= j < 6 && before.0.contains_key(#[trigger] neighbor_hex(h, j)) {
                lemma_min_neighbor_cost(before.0, h, 6);
                let v = min_neighbor_cost(before.0, h, 6).unwrap();
                let jm = choose|j: int|
                    0 <= j < 6 && before.0.contains_key(#[trigger] neighbor_hex(h, j)) && before.0[neighbor_hex(h, j)]
                        == v;
                assert(c + 1 + before.0[neighbor_hex(h, jm)] > budget);
                assert(after == before);
            } else {
                assert(after == before);
            }
        }
    }
}

/// Field of movement with a uniform cost `c`: the reached coordinates are
/// exactly those `k >= 1` steps away from `start` with `k * (c + 1)` within
/// the budget, each recorded at total `k * (c + 1)`.
pub proof fn lemma_movement_uniform(start: Hex, budget: int, c: u32)
    requires
        budget >= 0,
        range_fits(start, budget + 1),
    ensures
        ({
            let cells = movement_cells(start, budget);
            let st = movement_run(start, cells, uniform_costs(cells.len() as int, c), budget);
            &&& forall|h: Hex|
                #[trigger] st.1.contains(h) <==> (1 <= h.dist(start) && h.dist(start) * (c + 1) <= budget)
            &&& forall|h: Hex| #[trigger] st.1.contains(h) ==> st.0[h] == h.dist(start) * (c + 1)
        }),
{
    let cells = movement_cells(start, budget);
    let costs = uniform_costs(cells.len() as int, c);
    lemma_movement_cells_law(start, budget);
    lemma_movement_uniform_prefix(start, budget, c, cells.len() as int);
    assert(cells.take(cells.len() as int) =~= cells);
    assert(costs.take(cells.len() as int) =~= costs);
    let st = movement_run(start, cells, costs, budget);
    assert forall|h: Hex| #[trigger] st.1.contains(h) <==> (1 <= h.dist(start) && h.dist(start) * (c + 1)
        <= budget) by {
        if 1 <= h.dist(start) && h.dist(start) * (c + 1) <= budget {
            assert(h.dist(start) <= budget) by (nonlinear_arith)
                requires
                    h.dist(start) * (c + 1) <= budget,
                    h.dist(start) >= 1,
                    c >= 0,
            ;
        }
    }
    assert forall|h: Hex| #[trigger] st.1.contains(h) implies st.0[h] == h.dist(start) * (c + 1) by {
        assert(st.0.contains_key(h));
    }
}

} // verus!
