//! A* path finding between two coordinates, one search step at a time.
use crate::hex::{neighbor_x, neighbor_y, wide_distance, Hex};
use crate::movement::{entries_map, map_get, neighbor_hex};
use vstd::prelude::*;

verus! {

/// Both coordinates of `h` are strictly inside the `i32` range, so that its
/// neighbors are representable.
pub open spec fn inner(h: Hex) -> bool {
    i32::MIN < h.x < i32::MAX && i32::MIN < h.y < i32::MAX
}

/// The map made of parent links, later links overriding earlier ones.
pub open spec fn links_map(links: Seq<(Hex, Hex)>) -> Map<Hex, Hex>
    decreases links.len(),
{
    if links.len() == 0 {
        Map::empty()
    } else {
        links_map(links.drop_last()).insert(links.last().0, links.last().1)
    }
}

/// The search state: recorded totals, parent links and pending nodes.
pub type SearchState = (Map<Hex, u32>, Map<Hex, Hex>, Seq<(Hex, u32)>);

/// Relaxes the neighbor `n` of `from` (recorded at `base`), whose cost is
/// `c` (`None` when it cannot be entered): its total is `base`, plus `c`,
/// plus its distance to `start`; it is recorded, linked to `from` and queued
/// when it had no total yet or a larger one. Neighbors on the border of the
/// `i32` range and totals beyond `u32::MAX` are left out.
pub open spec fn relax(state: SearchState, from: Hex, base: u32, n: Hex, c: Option<u32>, start: Hex) -> SearchState {
    match c {
        None => state,
        Some(c) => {
            let total = base + c + n.dist(start);
            if !inner(n) || total > u32::MAX {
                state
            } else if !state.0.contains_key(n) || state.0[n] > total {
                (state.0.insert(n, total as u32), state.1.insert(n, from), state.2.push((n, total as u32)))
            } else {
                state
            }
        },
    }
}

/// Relaxes the first `k` neighbors of `from`, in `Direction` order, with the
/// costs `outcomes`.
pub open spec fn expand(state: SearchState, from: Hex, base: u32, outcomes: Seq<Option<u32>>, start: Hex, k: int) -> SearchState
    decreases k,
{
    if k <= 0 {
        state
    } else {
        relax(expand(state, from, base, outcomes, start, k - 1), from, base, neighbor_hex(from, k - 1), outcomes[k - 1], start)
    }
}

/// The path reaching `h` by following at most `fuel` parent links backwards,
/// from the first coordinate of the path to `h`.
pub open spec fn path_to(links: Map<Hex, Hex>, h: Hex, fuel: nat) -> Seq<Hex>
    decreases fuel,
{
    if fuel == 0 || !links.contains_key(h) {
        seq![h]
    } else {
        path_to(links, links[h], (fuel - 1) as nat).push(h)
    }
}

/// Expanding `from` only links coordinates that already had a link, or
/// neighbors of `from` for which the cost gave `Some`: the search never
/// enters a coordinate that the cost refused.
pub proof fn lemma_expand_links_admitted(
    state: SearchState,
    from: Hex,
    base: u32,
    outcomes: Seq<Option<u32>>,
    start: Hex,
    k: int,
    h: Hex,
)
    requires
        0 <= k <= outcomes.len(),
        expand(state, from, base, outcomes, start, k).1.contains_key(h),
    ensures
        state.1.contains_key(h) || exists|j: int|
            0 <= j < k && neighbor_hex(from, j) == h && #[trigger] outcomes[j] is Some,
    decreases k,
{
    if k > 0 {
        let prev = expand(state, from, base, outcomes, start, k - 1);
        if prev.1.contains_key(h) {
            lemma_expand_links_admitted(state, from, base, outcomes, start, k - 1, h);
        } else {
            assert(neighbor_hex(from, k - 1) == h && outcomes[k - 1] is Some);
        }
    }
}

/// Every coordinate of a path built from parent links, except its first,
/// is a linked coordinate.
pub proof fn lemma_path_linked(links: Map<Hex, Hex>, h: Hex, fuel: nat)
    ensures
        forall|j: int|
            1 <= j < path_to(links, h, fuel).len() ==> links.contains_key(#[trigger] path_to(links, h, fuel)[j]),
    decreases fuel,
{
    if fuel > 0 && links.contains_key(h) {
        let prev = path_to(links, links[h], (fuel - 1) as nat);
        lemma_path_linked(links, links[h], (fuel - 1) as nat);
        assert forall|j: int| 1 <= j < path_to(links, h, fuel).len() implies links.contains_key(
            #[trigger] path_to(links, h, fuel)[j],
        ) by {
            if j < prev.len() {
                assert(path_to(links, h, fuel)[j] == prev[j]);
            }
        }
    }
}

/// `open[i]` has the smallest priority of `open`, and no entry before it has
/// the same priority.
pub open spec fn first_min(open: Seq<(Hex, u32)>, i: int) -> bool {
    &&& 0 <= i < open.len()
    &&& forall|j: int| 0 <= j < open.len() ==> open[i].1 <= #[trigger] open[j].1
    &&& forall|j: int| 0 <= j < i ==> open[i].1 < #[trigger] open[j].1
}

/// The outcome of one search step.
pub enum AStarStep {
    /// The destination was reached along this path
    Found(Vec<Hex>),
    /// Nothing remains to explore: the destination cannot be reached
    Exhausted,
    /// The search goes on
    Searching,
}

/// An A* search from `start` to `end`, where entering a coordinate costs what
/// a cost function returns for it, and the remaining distance is estimated by
/// the distance to `start`.
pub struct AStar {
    start: Hex,
    end: Hex,
    costs: Vec<(Hex, u32)>,
    links: Vec<(Hex, Hex)>,
    open: Vec<(Hex, u32)>,
}

impl AStar {
    /// Every pending node is recorded and can be expanded.
    #[verifier::type_invariant]
    spec fn wf(self) -> bool {
        &&& forall|i: int|
            0 <= i < self.open.len() ==> inner(#[trigger] self.open@[i].0) && entries_map(self.costs@).contains_key(
                self.open@[i].0,
            )
        &&& forall|i: int| 0 <= i < self.links.len() ==> (#[trigger] self.links@[i]).0.dist(self.links@[i].1) == 1
        &&& descends_to_start(entries_map(self.costs@), links_map(self.links@), self.start)
    }

    /// The search origin.
    pub closed spec fn start_spec(self) -> Hex {
        self.start
    }

    /// The search destination.
    pub closed spec fn end_spec(self) -> Hex {
        self.end
    }

    /// The state of the search: recorded totals, parent links and pending
    /// nodes with their priorities.
    pub closed spec fn state(self) -> SearchState {
        (entries_map(self.costs@), links_map(self.links@), self.open@)
    }

    /// Starts a search from `start` to `end`: `start` is recorded at total `0`
    /// and pending.
    pub fn new(start: Hex, end: Hex) -> (r: Self)
        requires
            inner(start),
        ensures
            r.start_spec() == start,
            r.end_spec() == end,
            r.state() == (Map::<Hex, u32>::empty().insert(start, 0u32), Map::<Hex, Hex>::empty(), seq![(start, 0u32)]),
    {
        let mut costs: Vec<(Hex, u32)> = Vec::new();
        costs.push((start, 0));
        let mut open: Vec<(Hex, u32)> = Vec::new();
        open.push((start, 0));
        let links: Vec<(Hex, Hex)> = Vec::new();
        proof {
            assert(costs@.drop_last() =~= Seq::<(Hex, u32)>::empty());
            assert(costs@.last() == (start, 0u32));
            assert(entries_map(costs@.drop_last()) =~= Map::<Hex, u32>::empty());
            assert(entries_map(costs@) =~= Map::<Hex, u32>::empty().insert(start, 0u32));
            assert(links_map(links@) =~= Map::<Hex, Hex>::empty());
            assert(open@ =~= seq![(start, 0u32)]);
        }
        let r = AStar { start, end, costs, links, open };
        r
    }

    /// A search from `start` to `end` with nothing pending.
    fn placeholder(start: Hex, end: Hex) -> (r: Self)
        ensures
            r.start == start,
            r.end == end,
    {
        let mut costs: Vec<(Hex, u32)> = Vec::new();
        costs.push((start, 0));
        let links: Vec<(Hex, Hex)> = Vec::new();
        proof {
            assert(costs@.drop_last() =~= Seq::<(Hex, u32)>::empty());
            assert(costs@.last() == (start, 0u32));
            assert(entries_map(costs@.drop_last()) =~= Map::<Hex, u32>::empty());
            assert(entries_map(costs@) =~= Map::<Hex, u32>::empty().insert(start, 0u32));
            assert(links_map(links@) =~= Map::<Hex, Hex>::empty());
        }
        AStar { start, end, costs, links, open: Vec::new() }
    }

    /// Performs one search step: takes the pending node of smallest priority
    /// (the first one in case of a tie); if it is the destination, returns
    /// the path to it; otherwise relaxes its neighbors with the costs
    /// returned by `cost`. Returns `Exhausted` when nothing is pending.
    pub fn step<F: Fn(Hex) -> Option<u32>>(&mut self, cost: &F) -> (r: AStarStep)
        requires
            forall|h: Hex| cost.requires((h,)),
        ensures
            final(self).start_spec() == old(self).start_spec(),
            final(self).end_spec() == old(self).end_spec(),
            r matches AStarStep::Found(path) ==> path@.len() > 0 && path@[0] == old(self).start_spec() && path@.last()
                == old(self).end_spec() && forall|
                j: int,
            |
                0 <= j < path@.len() - 1 ==> (#[trigger] path@[j]).dist(path@[j + 1]) == 1,
            old(self).state().2.len() == 0 ==> r is Exhausted && final(self).state() == old(self).state(),
            old(self).state().2.len() > 0 ==> exists|i: int|
                {
                    &&& first_min(old(self).state().2, i)
                    &&& ({
                        let node = old(self).state().2[i];
                        let rest = old(self).state().2.remove(i);
                        if node.0 == old(self).end_spec() {
                            &&& r matches AStarStep::Found(path) && path@ == path_to(
                                old(self).state().1,
                                node.0,
                                (old(self).state().0[node.0] + 1) as nat,
                            )
                            &&& final(self).state() == (old(self).state().0, old(self).state().1, rest)
                        } else {
                            &&& r is Searching
                            &&& exists|outcomes: Seq<Option<u32>>|
                                {
                                    &&& outcomes.len() == 6
                                    &&& forall|k: int|
                                        0 <= k < 6 ==> cost.ensures((neighbor_hex(node.0, k),), #[trigger] outcomes[k])
                                    &&& final(self).state() == expand(
                                        (old(self).state().0, old(self).state().1, rest),
                                        node.0,
                                        old(self).state().0[node.0],
                                        outcomes,
                                        old(self).start_spec(),
                                        6,
                                    )
                                }
                        }
                    })
                },
    {
        proof {
            use_type_invariant(&*self);
        }
        if self.open.len() == 0 {
            return AStarStep::Exhausted;
        }
        let best = self.first_min_index();
        let node = self.open[best];
        let ghost old_open = self.open@;
        let ghost old_costs = self.costs@;
        let ghost old_links = self.links@;
        assert(inner(node.0) && entries_map(old_costs).contains_key(node.0));
        let mut open = Vec::new();
        std::mem::swap(&mut open, &mut self.open);
        let (_, popped) = remove_at(open, best);
        proof {
            assert forall|i: int|
                0 <= i < popped.len() implies inner(#[trigger] popped@[i].0) && entries_map(
                self.costs@,
            ).contains_key(popped@[i].0) by {
                if i < best {
                    assert(popped@[i] == old_open[i]);
                } else {
                    assert(popped@[i] == old_open[i + 1]);
                }
            }
        }
        self.open = popped;
        let base = match crate::movement::lookup(&self.costs, node.0) {
            Some(v) => v,
            None => 0,
        };
        if node.0 == self.end {
            let path = path_back(&self.links, node.0, base as u64 + 1);
            proof {
                lemma_links_are_steps(self.links@);
                lemma_path_steps(links_map(self.links@), node.0, (base + 1) as nat);
                lemma_path_from_start(entries_map(self.costs@), links_map(self.links@), self.start, node.0, (base + 1) as nat);
            }
            return AStarStep::Found(path);
        }
        let neighbors = node.0.all_neighbors();
        let ghost mut outcomes: Seq<Option<u32>> = Seq::empty();
        let mut k: usize = 0;
        while k < 6
            invariant
                0 <= k <= 6,
                forall|h: Hex| cost.requires((h,)),
                forall|i: int|
                    0 <= i < 6 ==> (#[trigger] neighbors[i]).x == node.0.x + neighbor_x(i) && neighbors[i].y
                        == node.0.y + neighbor_y(i),
                forall|i: int| 0 <= i < 6 ==> (#[trigger] neighbors[i]).dist(node.0) == 1,
                inner(node.0),
                outcomes.len() == k,
                forall|j: int| 0 <= j < k ==> cost.ensures((neighbor_hex(node.0, j),), #[trigger] outcomes[j]),
                self.start == old(self).start_spec(),
                self.end == old(self).end_spec(),
                base == entries_map(old_costs)[node.0],
                entries_map(self.costs@).contains_key(node.0),
                entries_map(self.costs@)[node.0] == base,
                forall|i: int|
                    0 <= i < self.open.len() ==> inner(#[trigger] self.open@[i].0) && entries_map(self.costs@).contains_key(
                        self.open@[i].0,
                    ),
                (entries_map(self.costs@), links_map(self.links@), self.open@) == expand(
                    (entries_map(old_costs), links_map(old_links), old_open.remove(best as int)),
                    node.0,
                    base,
                    outcomes,
                    self.start,
                    k as int,
                ),
            decreases 6 - k,
        {
            let n = neighbors[k];
            assert(n == neighbor_hex(node.0, k as int));
            assert(n.dist(node.0) == 1);
            let c = cost(n);
            let ghost old_outcomes = outcomes;
            proof {
                outcomes = outcomes.push(c);
                assert(old_outcomes =~= outcomes.take(k as int));
            }
            self.relax_neighbor(node.0, base, n, c);
            proof {
                assert(expand(
                    (entries_map(old_costs), links_map(old_links), old_open.remove(best as int)),
                    node.0,
                    base,
                    outcomes.take(k as int),
                    self.start,
                    k as int,
                ) == expand(
                    (entries_map(old_costs), links_map(old_links), old_open.remove(best as int)),
                    node.0,
                    base,
                    outcomes,
                    self.start,
                    k as int,
                )) by {
                    lemma_expand_prefix(
                        (entries_map(old_costs), links_map(old_links), old_open.remove(best as int)),
                        node.0,
                        base,
                        outcomes,
                        self.start,
                        k as int,
                    );
                }
            }
            k += 1;
        }
        AStarStep::Searching
    }

    /// Position of the first pending node of smallest priority.
    fn first_min_index(&self) -> (i: usize)
        requires
            self.open.len() > 0,
        ensures
            first_min(self.open@, i as int),
    {
        let mut best: usize = 0;
        let mut j: usize = 1;
        while j < self.open.len()
            invariant
                1 <= j <= self.open.len(),
                0 <= best < j,
                forall|m: int| 0 <= m < j ==> self.open@[best as int].1 <= #[trigger] self.open@[m].1,
                forall|m: int| 0 <= m < best ==> self.open@[best as int].1 < #[trigger] self.open@[m].1,
            decreases self.open.len() - j,
        {
            if self.open[j].1 < self.open[best].1 {
                best = j;
            }
            j += 1;
        }
        best
    }

    /// Relaxes the neighbor `n` of `from`, recorded at `base`, whose cost is
    /// `c`.
    fn relax_neighbor(&mut self, from: Hex, base: u32, n: Hex, c: Option<u32>)
        requires
            n.dist(from) == 1,
            entries_map(old(self).costs@).contains_key(from),
            entries_map(old(self).costs@)[from] == base,
        ensures
            final(self).start == old(self).start,
            final(self).end == old(self).end,
            (entries_map(final(self).costs@), links_map(final(self).links@), final(self).open@) == relax(
                (entries_map(old(self).costs@), links_map(old(self).links@), old(self).open@),
                from,
                base,
                n,
                c,
                old(self).start,
            ),
    {
        proof {
            use_type_invariant(&*self);
        }
        match c {
            None => {},
            Some(c) => {
                if !(i32::MIN < n.x && n.x < i32::MAX && i32::MIN < n.y && n.y < i32::MAX) {
                    return;
                }
                let h = wide_distance(n, self.start);
                let total = base as i64 + c as i64 + h;
                if total > u32::MAX as i64 {
                    return;
                }
                let known = crate::movement::lookup(&self.costs, n);
                let better = match known {
                    None => true,
                    Some(v) => v as i64 > total,
                };
                if better {
                    let ghost old_costs = self.costs@;
                    let ghost old_links = self.links@;
                    let ghost old_open = self.open@;
                    let mut taken = AStar::placeholder(self.start, self.end);
                    std::mem::swap(&mut taken, self);
                    proof {
                        use_type_invariant(&taken);
                    }
                    let AStar { start, end, mut costs, mut links, mut open } = taken;
                    costs.push((n, total as u32));
                    links.push((n, from));
                    open.push((n, total as u32));
                    proof {
                        assert(costs@.drop_last() =~= old_costs);
                        assert(links@.drop_last() =~= old_links);
                        assert forall|i: int| 0 <= i < links.len() implies (#[trigger] links@[i]).0.dist(links@[i].1)
                            == 1 by {
                            if i < old_links.len() {
                                assert(links@[i] == old_links[i]);
                            }
                        }
                        assert forall|i: int|
                            0 <= i < open.len() implies inner(#[trigger] open@[i].0) && entries_map(
                            costs@,
                        ).contains_key(open@[i].0) by {
                            if i < old_open.len() {
                                assert(open@[i] == old_open[i]);
                            }
                        }
                        let oc = entries_map(old_costs);
                        let ol = links_map(old_links);
                        let nc = entries_map(costs@);
                        let nl = links_map(links@);
                        assert(nc == oc.insert(n, total as u32));
                        assert(nl == ol.insert(n, from));
                        assert(n != start) by {
                            if n == start {
                                assert(oc[start] == 0);
                            }
                        }
                        assert(n != from);
                        assert(n.dist(start) >= 1);
                        assert forall|k: Hex| #[trigger] nl.contains_key(k) implies nc.contains_key(k) && nc.contains_key(
                            nl[k],
                        ) && nc[nl[k]] < nc[k] by {
                            if k != n {
                                assert(ol.contains_key(k));
                            }
                        }
                        assert forall|k: Hex| #[trigger] nc.contains_key(k) implies k == start || nl.contains_key(k) by {
                            if k != n {
                                assert(oc.contains_key(k));
                            }
                        }
                    }
                    *self = AStar { start, end, costs, links, open };
                }
            },
        }
    }
}

/// When every link joins neighbors, so does the map they make.
proof fn lemma_links_are_steps(links: Seq<(Hex, Hex)>)
    requires
        forall|i: int| 0 <= i < links.len() ==> (#[trigger] links[i]).0.dist(links[i].1) == 1,
    ensures
        forall|h: Hex| #[trigger] links_map(links).contains_key(h) ==> h.dist(links_map(links)[h]) == 1,
    decreases links.len(),
{
    if links.len() > 0 {
        let front = links.drop_last();
        assert forall|i: int| 0 <= i < front.len() implies (#[trigger] front[i]).0.dist(front[i].1) == 1 by {
            assert(front[i] == links[i]);
        }
        lemma_links_are_steps(front);
        let last = links[links.len() - 1];
        assert(links_map(links) == links_map(front).insert(last.0, last.1));
        assert forall|h: Hex| #[trigger] links_map(links).contains_key(h) implies h.dist(links_map(links)[h]) == 1 by {
            if h != last.0 {
                assert(links_map(front).contains_key(h));
            }
        }
    }
}

/// A path made by following links that join neighbors is made of steps
/// between neighbors, and ends at `h`.
pub proof fn lemma_path_steps(links: Map<Hex, Hex>, h: Hex, fuel: nat)
    requires
        forall|k: Hex| #[trigger] links.contains_key(k) ==> k.dist(links[k]) == 1,
    ensures
        path_to(links, h, fuel).len() > 0,
        path_to(links, h, fuel).last() == h,
        forall|j: int|
            0 <= j < path_to(links, h, fuel).len() - 1 ==> (#[trigger] path_to(links, h, fuel)[j]).dist(
                path_to(links, h, fuel)[j + 1],
            ) == 1,
    decreases fuel,
{
    if fuel > 0 && links.contains_key(h) {
        let p = links[h];
        lemma_path_steps(links, p, (fuel - 1) as nat);
        let front = path_to(links, p, (fuel - 1) as nat);
        let path = path_to(links, h, fuel);
        assert(path == front.push(h));
        assert forall|j: int| 0 <= j < path.len() - 1 implies (#[trigger] path[j]).dist(path[j + 1]) == 1 by {
            if j < front.len() - 1 {
                assert(path[j] == front[j] && path[j + 1] == front[j + 1]);
            } else {
                assert(path[j] == p && path[j + 1] == h);
                assert(p.dist(h) == h.dist(p));
            }
        }
    }
}

/// The recorded coordinates form a tree rooted at `start`: `start` is
/// recorded at total `0` and has no parent, every other recorded coordinate
/// has a recorded parent with a smaller total.
pub open spec fn descends_to_start(costs: Map<Hex, u32>, links: Map<Hex, Hex>, start: Hex) -> bool {
    &&& costs.contains_key(start)
    &&& costs[start] == 0
    &&& !links.contains_key(start)
    &&& forall|k: Hex|
        #[trigger] links.contains_key(k) ==> costs.contains_key(k) && costs.contains_key(links[k])
            && costs[links[k]] < costs[k]
    &&& forall|k: Hex| #[trigger] costs.contains_key(k) ==> k == start || links.contains_key(k)
}

/// Following the parent links from a recorded coordinate, with more steps
/// allowed than its total, leads back to `start`.
pub proof fn lemma_path_from_start(costs: Map<Hex, u32>, links: Map<Hex, Hex>, start: Hex, h: Hex, fuel: nat)
    requires
        descends_to_start(costs, links, start),
        costs.contains_key(h),
        fuel > costs[h],
    ensures
        path_to(links, h, fuel)[0] == start,
    decreases costs[h],
{
    if links.contains_key(h) {
        let p = links[h];
        lemma_path_from_start(costs, links, start, p, (fuel - 1) as nat);
        lemma_path_nonempty(links, p, (fuel - 1) as nat);
    }
}

/// A path is never empty.
proof fn lemma_path_nonempty(links: Map<Hex, Hex>, h: Hex, fuel: nat)
    ensures
        path_to(links, h, fuel).len() > 0,
    decreases fuel,
{
    if fuel > 0 && links.contains_key(h) {
        lemma_path_nonempty(links, links[h], (fuel - 1) as nat);
    }
}

/// Relaxing the first `k` neighbors only reads the first `k` outcomes.
proof fn lemma_expand_prefix(
    state: SearchState,
    from: Hex,
    base: u32,
    outcomes: Seq<Option<u32>>,
    start: Hex,
    k: int,
)
    requires
        0 <= k < outcomes.len(),
    ensures
        expand(state, from, base, outcomes.take(k), start, k) == expand(state, from, base, outcomes, start, k),
    decreases k,
{
    if k > 0 {
        lemma_expand_prefix(state, from, base, outcomes, start, k - 1);
        assert(outcomes.take(k - 1) =~= outcomes.take(k).take(k - 1));
        lemma_expand_prefix(state, from, base, outcomes.take(k), start, k - 1);
    }
}

/// Removes the element at position `i`.
fn remove_at(v: Vec<(Hex, u32)>, i: usize) -> (r: ((Hex, u32), Vec<(Hex, u32)>))
    requires
        i < v.len(),
    ensures
        r.0 == v@[i as int],
        r.1@ == v@.remove(i as int),
{
    let mut v = v;
    let x = v.remove(i);
    (x, v)
}

/// The path reaching `h` by following parent links backwards, at most
/// `max_steps` times.
fn path_back(links: &Vec<(Hex, Hex)>, h: Hex, max_steps: u64) -> (r: Vec<Hex>)
    ensures
        r@ == path_to(links_map(links@), h, max_steps as nat),
{
    let ghost m = links_map(links@);
    let mut rev: Vec<Hex> = Vec::new();
    let mut cur = h;
    let mut fuel = max_steps;
    rev.push(cur);
    loop
        invariant
            fuel <= max_steps,
            m == links_map(links@),
            path_to(m, h, max_steps as nat) == path_to(m, cur, fuel as nat) + reverse_of(rev@).drop_first(),
            rev@.len() > 0,
            rev@[rev@.len() - 1] == cur,
        ensures
            m == links_map(links@),
            path_to(m, h, max_steps as nat) == path_to(m, cur, fuel as nat) + reverse_of(rev@).drop_first(),
            rev@.len() > 0,
            rev@[rev@.len() - 1] == cur,
            fuel == 0 || !m.contains_key(cur),
        decreases fuel,
    {
        if fuel == 0 {
            break;
        }
        let parent = lookup_link(links, cur);
        match parent {
            None => {
                break;
            },
            Some(p) => {
                let ghost old_rev = rev@;
                proof {
                    assert(path_to(m, cur, fuel as nat) == path_to(m, p, (fuel - 1) as nat).push(cur));
                }
                rev.push(p);
                proof {
                    lemma_reverse_push(old_rev, p);
                }
                cur = p;
                fuel -= 1;
            },
        }
    }
    proof {
        assert(path_to(m, cur, fuel as nat) == seq![cur]) by {
            if fuel > 0 {
                assert(!m.contains_key(cur));
            }
        }
        lemma_reverse_first(rev@);
    }
    let mut r: Vec<Hex> = Vec::new();
    let mut j = rev.len();
    while j > 0
        invariant
            j <= rev.len(),
            r@ == reverse_of(rev@.subrange(j as int, rev@.len() as int)),
        decreases j,
    {
        j -= 1;
        r.push(rev[j]);
        proof {
            lemma_reverse_prepend(rev@.subrange(j as int, rev@.len() as int), rev@.subrange(j + 1, rev@.len() as int));
        }
    }
    proof {
        assert(rev@.subrange(0, rev@.len() as int) =~= rev@);
    }
    r
}

/// The parent linked to `h`, if any.
fn lookup_link(links: &Vec<(Hex, Hex)>, h: Hex) -> (r: Option<Hex>)
    ensures
        r == (if links_map(links@).contains_key(h) {
            Some(links_map(links@)[h])
        } else {
            None::<Hex>
        }),
{
    let mut j = links.len();
    assert(links@.take(j as int) =~= links@);
    while j > 0
        invariant
            j <= links.len(),
            links_map(links@).contains_key(h) == links_map(links@.take(j as int)).contains_key(h),
            links_map(links@).contains_key(h) ==> links_map(links@)[h] == links_map(links@.take(j as int))[h],
        decreases j,
    {
        let (k, v) = links[j - 1];
        proof {
            let t = links@.take(j as int);
            assert(t.drop_last() =~= links@.take(j - 1));
            assert(t.last() == (k, v));
        }
        if k == h {
            return Some(v);
        }
        j -= 1;
    }
    assert(links@.take(0) =~= Seq::<(Hex, Hex)>::empty());
    None
}

/// `s` in reverse order.
pub open spec fn reverse_of(s: Seq<Hex>) -> Seq<Hex> {
    Seq::new(s.len(), |i: int| s[s.len() - 1 - i])
}

/// Reversing after pushing puts the pushed value first.
proof fn lemma_reverse_push(s: Seq<Hex>, x: Hex)
    ensures
        reverse_of(s.push(x)) == seq![x] + reverse_of(s),
{
    assert(reverse_of(s.push(x)) =~= seq![x] + reverse_of(s));
}

/// A reversed non empty sequence starts with its last value.
proof fn lemma_reverse_first(s: Seq<Hex>)
    requires
        s.len() > 0,
    ensures
        reverse_of(s) == seq![s.last()] + reverse_of(s).drop_first(),
{
    assert(reverse_of(s) =~= seq![s.last()] + reverse_of(s).drop_first());
}

/// Reversing a sequence puts its first value last.
proof fn lemma_reverse_prepend(s: Seq<Hex>, t: Seq<Hex>)
    requires
        s.len() > 0,
        t =~= s.drop_first(),
    ensures
        reverse_of(s) == reverse_of(t).push(s[0]),
{
    assert(reverse_of(s) =~= reverse_of(t).push(s[0]));
}

} // verus!
