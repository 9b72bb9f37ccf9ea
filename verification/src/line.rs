//! Directions followed along a line of coordinates.
use crate::direction::Direction;
use crate::hex::{neighbor_x, neighbor_y, Hex};
use vstd::prelude::*;

verus! {

/// The direction leading from `a` to its neighbor `b`.
pub open spec fn step_direction(a: Hex, b: Hex) -> Direction {
    choose|d: Direction| neighbor_x(d.idx()) == b.x - a.x && neighbor_y(d.idx()) == b.y - a.y
}

/// The directions of the steps between consecutive coordinates of `line`
/// that are neighbors, in order.
pub open spec fn line_directions_spec(line: Seq<Hex>) -> Seq<Direction>
    decreases line.len(),
{
    if line.len() < 2 {
        Seq::empty()
    } else {
        let front = line_directions_spec(line.drop_last());
        let (a, b) = (line[line.len() - 2], line[line.len() - 1]);
        if a.dist(b) == 1 {
            front.push(step_direction(a, b))
        } else {
            front
        }
    }
}

impl Hex {
    /// Retrieves the directions of the steps between consecutive coordinates
    /// of `line` that are neighbors, skipping the others.
    pub fn line_directions(line: &[Hex]) -> (r: Vec<Direction>)
        requires
            forall|i: int|
                0 <= i < line.len() ==> i32::MIN < (#[trigger] line[i]).x < i32::MAX && i32::MIN < line[i].y
                    < i32::MAX,
        ensures
            r@ == line_directions_spec(line@),
    {
        let mut r: Vec<Direction> = Vec::new();
        if line.len() < 2 {
            return r;
        }
        let mut i: usize = 1;
        assert(line@.subrange(0, 1).drop_last() =~= Seq::<Hex>::empty());
        while i < line.len()
            invariant
                1 <= i <= line.len(),
                forall|k: int|
                    0 <= k < line.len() ==> i32::MIN < (#[trigger] line[k]).x < i32::MAX && i32::MIN < line[k].y
                        < i32::MAX,
                r@ == line_directions_spec(line@.subrange(0, i as int)),
            decreases line.len() - i,
        {
            let a = line[i - 1];
            let b = line[i];
            let step = a.neighbor_direction(b);
            proof {
                let next = line@.subrange(0, i + 1);
                assert(next.drop_last() =~= line@.subrange(0, i as int));
                assert(next[next.len() - 2] == a && next[next.len() - 1] == b);
            }
            match step {
                Some(d) => {
                    proof {
                        let c = step_direction(a, b);
                        crate::direction::lemma_direction_idx_injective(d, c);
                        assert(neighbor_x(d.idx()) == b.x - a.x && neighbor_y(d.idx()) == b.y - a.y);
                        assert(neighbor_x(c.idx()) == b.x - a.x && neighbor_y(c.idx()) == b.y - a.y);
                    }
                    r.push(d);
                },
                None => {},
            }
            i += 1;
        }
        assert(line@.subrange(0, line.len() as int) =~= line@);
        r
    }
}

} // verus!
