//! Field of view: the coordinates seen along lines of sight, each line
//! stopping at the first coordinate that blocks the view.
use crate::direction::DiagonalDirection;
use crate::edge_direction::EdgeDirection;
use crate::way::DirectionWay;
use crate::hex::{diagonal_way_spec, diagonal_x, diagonal_y, way_args_fit, Hex};
use crate::edge_direction::{vertex_x, vertex_y};
use crate::shapes::{range_fits, ring_seq};
use vstd::prelude::*;

verus! {

/// The coordinates `lines[i][k]` for `k < seen[i]`: the visible part of each
/// line of sight.
pub open spec fn seen_in(lines: Seq<Seq<Hex>>, seen: Seq<int>, h: Hex) -> bool {
    exists|i: int, k: int| 0 <= i < lines.len() && 0 <= k < seen[i] && #[trigger] lines[i][k] == h
}

/// `seen[i]` is the length of the visible prefix of line `i` for the answers
/// of `blocking`: every coordinate before it does not block, and the one at
/// `seen[i]`, if any, blocks.
pub open spec fn visible_prefixes<F: Fn(Hex) -> bool>(lines: Seq<Seq<Hex>>, seen: Seq<int>, blocking: F) -> bool {
    &&& seen.len() == lines.len()
    &&& forall|i: int| 0 <= i < lines.len() ==> 0 <= #[trigger] seen[i] <= lines[i].len()
    &&& forall|i: int, k: int|
        0 <= i < lines.len() && 0 <= k < seen[i] ==> blocking.ensures((#[trigger] lines[i][k],), false)
    &&& forall|i: int|
        0 <= i < lines.len() && #[trigger] seen[i] < lines[i].len() ==> blocking.ensures((lines[i][seen[i]],), true)
}

/// The view of a sequence of lines.
pub open spec fn lines_view(lines: Seq<Vec<Hex>>) -> Seq<Seq<Hex>> {
    Seq::new(lines.len(), |i: int| lines[i]@)
}

/// Length of the prefix of `line` before the first coordinate that blocks.
fn visible_prefix<F: Fn(Hex) -> bool>(line: &Vec<Hex>, blocking: &F) -> (n: usize)
    requires
        forall|h: Hex| blocking.requires((h,)),
    ensures
        n <= line.len(),
        forall|k: int| 0 <= k < n ==> blocking.ensures((#[trigger] line@[k],), false),
        n < line.len() ==> blocking.ensures((line@[n as int],), true),
{
    let mut n: usize = 0;
    while n < line.len()
        invariant
            n <= line.len(),
            forall|h: Hex| blocking.requires((h,)),
            forall|k: int| 0 <= k < n ==> blocking.ensures((#[trigger] line@[k],), false),
        decreases line.len() - n,
    {
        if blocking(line[n]) {
            return n;
        }
        n += 1;
    }
    n
}

/// Position of `h` in `r`, if it occurs there.
fn position_of(r: &Vec<Hex>, h: Hex) -> (p: Option<usize>)
    ensures
        p matches Some(m) ==> m < r.len() && r@[m as int] == h,
        p is None ==> forall|w: int| 0 <= w < r.len() ==> r@[w] != h,
{
    let mut m: usize = 0;
    while m < r.len()
        invariant
            0 <= m <= r.len(),
            forall|w: int| 0 <= w < m ==> r@[w] != h,
        decreases r.len() - m,
    {
        if r[m] == h {
            return Some(m);
        }
        m += 1;
    }
    None
}

/// Collects, without repetition, the coordinates seen along each of the
/// `lines` of sight: each line is followed from its start up to, and
/// excluding, the first coordinate for which `blocking` returns `true`.
pub fn fov_along<F: Fn(Hex) -> bool>(lines: &Vec<Vec<Hex>>, blocking: F) -> (r: Vec<Hex>)
    requires
        forall|h: Hex| blocking.requires((h,)),
    ensures
        exists|seen: Seq<int>|
            {
                &&& visible_prefixes(lines_view(lines@), seen, blocking)
                &&& forall|h: Hex| r@.contains(h) <==> seen_in(lines_view(lines@), seen, h)
            },
        r@.no_duplicates(),
{
    let ghost lv = lines_view(lines@);
    let ghost mut seen: Seq<int> = Seq::empty();
    let ghost mut org_i: Seq<int> = Seq::empty();
    let ghost mut org_k: Seq<int> = Seq::empty();
    let ghost mut pos: Seq<Seq<int>> = Seq::empty();
    let mut r: Vec<Hex> = Vec::new();
    let mut i: usize = 0;
    while i < lines.len()
        invariant
            0 <= i <= lines.len(),
            lv == lines_view(lines@),
            forall|h: Hex| blocking.requires((h,)),
            visible_prefixes(lv.take(i as int), seen, blocking),
            org_i.len() == r.len(),
            org_k.len() == r.len(),
            forall|w: int|
                0 <= w < r.len() ==> 0 <= #[trigger] org_i[w] < i && 0 <= org_k[w] < seen[org_i[w]] && lv[org_i[w]][org_k[w]]
                    == r@[w],
            pos.len() == i,
            forall|a: int, b: int|
                0 <= a < i && 0 <= b < seen[a] ==> 0 <= #[trigger] pos[a][b] < r.len() && r@[pos[a][b]] == lv[a][b],
            r@.no_duplicates(),
        decreases lines.len() - i,
    {
        let line = &lines[i];
        assert(lv[i as int] == line@);
        let n = visible_prefix(line, &blocking);
        let ghost mut cur: Seq<int> = Seq::empty();
        let mut k: usize = 0;
        while k < n
            invariant
                0 <= k <= n <= line.len(),
                i < lines.len(),
                lv == lines_view(lines@),
                lv[i as int] == line@,
                seen.len() == i,
                org_i.len() == r.len(),
                org_k.len() == r.len(),
                forall|w: int|
                    0 <= w < r.len() ==> (0 <= #[trigger] org_i[w] < i && 0 <= org_k[w] < seen[org_i[w]] && lv[org_i[w]][org_k[w]]
                        == r@[w]) || (org_i[w] == i && 0 <= org_k[w] < k && lv[org_i[w]][org_k[w]] == r@[w]),
                pos.len() == i,
                forall|a: int, b: int|
                    0 <= a < i && 0 <= b < seen[a] ==> 0 <= #[trigger] pos[a][b] < r.len() && r@[pos[a][b]] == lv[a][b],
                cur.len() == k,
                forall|b: int| 0 <= b < k ==> 0 <= #[trigger] cur[b] < r.len() && r@[cur[b]] == line@[b],
                r@.no_duplicates(),
            decreases n - k,
        {
            let h = line[k];
            let p = position_of(&r, h);
            match p {
                Some(m) => {
                    proof {
                        cur = cur.push(m as int);
                    }
                },
                None => {
                    let ghost old_r = r@;
                    r.push(h);
                    proof {
                        cur = cur.push(r.len() - 1);
                        org_i = org_i.push(i as int);
                        org_k = org_k.push(k as int);
                        assert forall|x: int, y: int| 0 <= x < y < r.len() implies r@[x] != r@[y] by {
                            if y == r.len() - 1 {
                                assert(old_r[x] != h);
                            } else {
                                assert(old_r[x] != old_r[y]);
                            }
                        }
                        assert forall|a: int, b: int|
                            0 <= a < i && 0 <= b < seen[a] implies 0 <= #[trigger] pos[a][b] < r.len() && r@[pos[a][b]]
                            == lv[a][b] by {
                            assert(r@[pos[a][b]] == old_r[pos[a][b]]);
                        }
                        assert forall|b: int| 0 <= b < k + 1 implies 0 <= #[trigger] cur[b] < r.len() && r@[cur[b]]
                            == line@[b] by {
                            if b < k {
                                assert(r@[cur[b]] == old_r[cur[b]]);
                            }
                        }
                        assert forall|w: int| 0 <= w < r.len() implies (0 <= #[trigger] org_i[w] < i && 0 <= org_k[w]
                            < seen[org_i[w]] && lv[org_i[w]][org_k[w]] == r@[w]) || (org_i[w] == i && 0 <= org_k[w] < k + 1
                            && lv[org_i[w]][org_k[w]] == r@[w]) by {
                            if w < r.len() - 1 {
                                assert(r@[w] == old_r[w]);
                            }
                        }
                    }
                },
            }
            k += 1;
        }
        proof {
            seen = seen.push(n as int);
            pos = pos.push(cur);
            assert(lv.take(i + 1) =~= lv.take(i as int).push(line@));
        }
        i += 1;
    }
    proof {
        assert(lv.take(lines.len() as int) =~= lv);
        assert forall|h: Hex| r@.contains(h) <==> seen_in(lv, seen, h) by {
            if r@.contains(h) {
                let w = choose|w: int| 0 <= w < r.len() && r@[w] == h;
                assert(lv[org_i[w]][org_k[w]] == h);
            }
            if seen_in(lv, seen, h) {
                let (a, b) = choose|a: int, b: int| 0 <= a < lv.len() && 0 <= b < seen[a] && #[trigger] lv[a][b] == h;
                assert(r@[pos[a][b]] == h);
            }
        }
    }
    r
}

/// Whether the way includes the diagonal direction at position `i`.
pub open spec fn way_has_idx(w: DirectionWay<DiagonalDirection>, i: int) -> bool {
    match w {
        DirectionWay::Single(d) => d.idx() == i,
        DirectionWay::Tie(v) => v[0].idx() == i || v[1].idx() == i,
    }
}

/// The coordinates `h` lying in one of the two diagonal wedges from `coord`
/// around the edge direction at index `e`. The vertex directions at indices
/// `e` and `e + 1` on either side of that edge are the diagonal directions at
/// positions `(6 - e) % 6` and `5 - e`.
pub open spec fn in_edge_wedges(coord: Hex, e: int) -> spec_fn(Hex) -> bool {
    |h: Hex|
        {
            let w = diagonal_way_spec(h.x - coord.x, h.y - coord.y);
            way_has_idx(w, (6 - e) % 6) || way_has_idx(w, 5 - e)
        }
}

/// Whether the way includes a diagonal direction whose offset is `(x, y)`.
pub open spec fn way_has_offset(w: DirectionWay<DiagonalDirection>, x: int, y: int) -> bool {
    match w {
        DirectionWay::Single(d) => diagonal_x(d.idx()) == x && diagonal_y(d.idx()) == y,
        DirectionWay::Tie(v) => (diagonal_x(v[0].idx()) == x && diagonal_y(v[0].idx()) == y) || (diagonal_x(
            v[1].idx(),
        ) == x && diagonal_y(v[1].idx()) == y),
    }
}

/// A diagonal direction has the offset of the diagonal at position `j`
/// exactly when it is that diagonal.
proof fn lemma_diagonal_offset(d: DiagonalDirection, j: int)
    requires
        0 <= j < 6,
    ensures
        (diagonal_x(d.idx()) == diagonal_x(j) && diagonal_y(d.idx()) == diagonal_y(j)) == (d.idx() == j),
{
}

/// The targets of a directional field of view of radius `range` around
/// `coord` facing the edge direction at index `e` are exactly the coordinates
/// `range` steps away from `coord` whose diagonal way from `coord` holds the
/// direction of one of the two vertices of that edge (the vertex directions
/// at indices `e` and `e + 1`, compared by their offsets).
pub proof fn lemma_directional_targets_law(coord: Hex, range: int, e: int, h: Hex)
    requires
        range_fits(coord, range),
        0 <= e < 6,
    ensures
        ring_seq(coord, range, 0, false).filter(in_edge_wedges(coord, e)).contains(h) <==> (h.dist(coord) == range
            && ({
            let w = diagonal_way_spec(h.x - coord.x, h.y - coord.y);
            way_has_offset(w, vertex_x(e), vertex_y(e)) || way_has_offset(
                w,
                vertex_x((e + 1) % 6),
                vertex_y((e + 1) % 6),
            )
        })),
{
    let ring = ring_seq(coord, range, 0, false);
    let pred = in_edge_wedges(coord, e);
    let w = diagonal_way_spec(h.x - coord.x, h.y - coord.y);
    // the two vertex directions of the edge, as diagonal directions
    assert(vertex_x(e) == diagonal_x((6 - e) % 6) && vertex_y(e) == diagonal_y((6 - e) % 6));
    assert(vertex_x((e + 1) % 6) == diagonal_x(5 - e) && vertex_y((e + 1) % 6) == diagonal_y(5 - e));
    // the diagonal offsets tell the diagonal directions apart
    match w {
        DirectionWay::Single(d) => {
            lemma_diagonal_offset(d, (6 - e) % 6);
            lemma_diagonal_offset(d, 5 - e);
        },
        DirectionWay::Tie(v) => {
            lemma_diagonal_offset(v[0], (6 - e) % 6);
            lemma_diagonal_offset(v[0], 5 - e);
            lemma_diagonal_offset(v[1], (6 - e) % 6);
            lemma_diagonal_offset(v[1], 5 - e);
        },
    }
    assert(pred(h) == (way_has_offset(w, vertex_x(e), vertex_y(e)) || way_has_offset(
        w,
        vertex_x((e + 1) % 6),
        vertex_y((e + 1) % 6),
    )));
    // ring membership
    assert(ring.contains(h) == (h.dist(coord) == range)) by {
        if ring.contains(h) {
            let i = choose|i: int| 0 <= i < ring.len() && ring[i] == h;
            crate::shapes::lemma_ring_distance(coord, range, 0, false, i);
        }
        if h.dist(coord) == range {
            if range == 0 {
                assert(h == coord);
                assert(ring[0] == h);
            } else {
                crate::shapes::lemma_ring_complete(coord, range, h);
                let i = crate::shapes::ring_index(range, h.x - coord.x, h.y - coord.y);
                assert(ring[i] == h);
            }
        }
    }
    if ring.filter(pred).contains(h) {
        ring.lemma_filter_contains_rev(pred, h);
        let i = choose|i: int| 0 <= i < ring.filter(pred).len() && ring.filter(pred)[i] == h;
        ring.lemma_filter_pred(pred, i);
    }
    if ring.contains(h) && pred(h) {
        let i = choose|i: int| 0 <= i < ring.len() && ring[i] == h;
        ring.lemma_filter_contains(pred, i);
    }
}

/// Whether `way` includes the diagonal direction at position `i`.
fn way_has_index(way: DirectionWay<DiagonalDirection>, i: usize) -> (r: bool)
    ensures
        r == way_has_idx(way, i as int),
{
    match way {
        DirectionWay::Single(d) => d.index() == i,
        DirectionWay::Tie(v) => v[0].index() == i || v[1].index() == i,
    }
}

/// The coordinates of the ring of radius `range` around `coord` lying in one
/// of the two diagonal wedges around the edge `direction` (those of its two
/// vertices), in ring order: the targets of a directional field of view.
pub fn directional_targets(coord: Hex, range: u32, direction: EdgeDirection) -> (r: Vec<Hex>)
    requires
        range_fits(coord, range as int),
        6 * range <= usize::MAX,
        range <= 0x3fff_ffff,
    ensures
        r@ == ring_seq(coord, range as int, 0, false).filter(in_edge_wedges(coord, direction.idx())),
        forall|h: Hex|
            r@.contains(h) <==> (h.dist(coord) == range && ({
                let w = diagonal_way_spec(h.x - coord.x, h.y - coord.y);
                way_has_offset(w, vertex_x(direction.idx()), vertex_y(direction.idx())) || way_has_offset(
                    w,
                    vertex_x((direction.idx() + 1) % 6),
                    vertex_y((direction.idx() + 1) % 6),
                )
            })),
{
    let ring = coord.ring(range);
    let vertices = direction.vertex_directions();
    let ai = (6 - vertices[0].index() as usize) % 6;
    let bi = (6 - vertices[1].index() as usize) % 6;
    let mut r: Vec<Hex> = Vec::new();
    let mut i: usize = 0;
    while i < ring.len()
        invariant
            0 <= i <= ring.len(),
            ring@ == ring_seq(coord, range as int, 0, false),
            range_fits(coord, range as int),
            range <= 0x3fff_ffff,
            ai == (6 - direction.idx()) % 6,
            bi == 5 - direction.idx(),
            r@ == ring@.take(i as int).filter(in_edge_wedges(coord, direction.idx())),
        decreases ring.len() - i,
    {
        let h = ring[i];
        proof {
            crate::shapes::lemma_ring_distance(coord, range as int, 0, false, i as int);
            reveal(Seq::filter);
            let t = ring@.take(i + 1);
            assert(t.drop_last() =~= ring@.take(i as int));
            assert(t.last() == h);
        }
        let way = coord.diagonal_way_to(h);
        if way_has_index(way, ai) || way_has_index(way, bi) {
            r.push(h);
        }
        i += 1;
    }
    assert(ring@.take(ring.len() as int) =~= ring@);
    proof {
        use_type_invariant(direction);
        assert forall|h: Hex|
            r@.contains(h) <==> (h.dist(coord) == range && ({
                let w = diagonal_way_spec(h.x - coord.x, h.y - coord.y);
                way_has_offset(w, vertex_x(direction.idx()), vertex_y(direction.idx())) || way_has_offset(
                    w,
                    vertex_x((direction.idx() + 1) % 6),
                    vertex_y((direction.idx() + 1) % 6),
                )
            })) by {
            lemma_directional_targets_law(coord, range as int, direction.idx(), h);
        }
    }
    r
}

} // verus!
