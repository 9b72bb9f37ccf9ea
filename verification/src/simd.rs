//! Sums, minimums and maximums of 4 or 8 coordinates using SIMD instructions
//! where available.
use crate::hex::Hex;
use vstd::prelude::*;

verus! {

/// Smallest of two integers.
pub open spec fn min2(a: int, b: int) -> int {
    if a <= b {
        a
    } else {
        b
    }
}

/// Largest of two integers.
pub open spec fn max2(a: int, b: int) -> int {
    if a >= b {
        a
    } else {
        b
    }
}

/// Calls `wide::i32x4::reduce_add`, which adds the four lanes with wrapping
/// arithmetic: the result is the exact sum truncated to `i32`.
#[verifier::external_body]
fn reduce_add4(v: [i32; 4]) -> (r: i32)
    ensures
        r == (v[0] + v[1] + v[2] + v[3]) as i32,
{
    wide::i32x4::new(v).reduce_add()
}

/// Calls `wide::i32x4::reduce_min`: the smallest of the four lanes.
#[verifier::external_body]
fn reduce_min4(v: [i32; 4]) -> (r: i32)
    ensures
        r == min2(min2(v[0] as int, v[1] as int), min2(v[2] as int, v[3] as int)),
{
    wide::i32x4::new(v).reduce_min()
}

/// Calls `wide::i32x4::reduce_max`: the largest of the four lanes.
#[verifier::external_body]
fn reduce_max4(v: [i32; 4]) -> (r: i32)
    ensures
        r == max2(max2(v[0] as int, v[1] as int), max2(v[2] as int, v[3] as int)),
{
    wide::i32x4::new(v).reduce_max()
}

/// Calls `wide::i32x8::reduce_add`, which adds the eight lanes with wrapping
/// arithmetic: the result is the exact sum truncated to `i32`.
#[verifier::external_body]
fn reduce_add8(v: [i32; 8]) -> (r: i32)
    ensures
        r == (v[0] + v[1] + v[2] + v[3] + v[4] + v[5] + v[6] + v[7]) as i32,
{
    wide::i32x8::new(v).reduce_add()
}

/// Calls `wide::i32x8::reduce_min`: the smallest of the eight lanes.
#[verifier::external_body]
fn reduce_min8(v: [i32; 8]) -> (r: i32)
    ensures
        r == min2(
            min2(min2(v[0] as int, v[4] as int), min2(v[1] as int, v[5] as int)),
            min2(min2(v[2] as int, v[6] as int), min2(v[3] as int, v[7] as int)),
        ),
{
    wide::i32x8::new(v).reduce_min()
}

/// Calls `wide::i32x8::reduce_max`: the largest of the eight lanes.
#[verifier::external_body]
fn reduce_max8(v: [i32; 8]) -> (r: i32)
    ensures
        r == max2(
            max2(max2(v[0] as int, v[4] as int), max2(v[1] as int, v[5] as int)),
            max2(max2(v[2] as int, v[6] as int), max2(v[3] as int, v[7] as int)),
        ),
{
    wide::i32x8::new(v).reduce_max()
}

impl Hex {
    /// Sums the 4 coordinates, wrapping around on overflow.
    pub fn simd_sum4(vals: [Hex; 4]) -> (r: Hex)
        ensures
            r.x == (vals[0].x + vals[1].x + vals[2].x + vals[3].x) as i32,
            r.y == (vals[0].y + vals[1].y + vals[2].y + vals[3].y) as i32,
    {
        let x = reduce_add4([vals[0].x, vals[1].x, vals[2].x, vals[3].x]);
        let y = reduce_add4([vals[0].y, vals[1].y, vals[2].y, vals[3].y]);
        Hex { x, y }
    }

    /// Sums the 8 coordinates, wrapping around on overflow.
    pub fn simd_sum8(vals: [Hex; 8]) -> (r: Hex)
        ensures
            r.x == (vals[0].x + vals[1].x + vals[2].x + vals[3].x + vals[4].x + vals[5].x + vals[6].x
                + vals[7].x) as i32,
            r.y == (vals[0].y + vals[1].y + vals[2].y + vals[3].y + vals[4].y + vals[5].y + vals[6].y
                + vals[7].y) as i32,
    {
        let x = reduce_add8(
            [vals[0].x, vals[1].x, vals[2].x, vals[3].x, vals[4].x, vals[5].x, vals[6].x, vals[7].x],
        );
        let y = reduce_add8(
            [vals[0].y, vals[1].y, vals[2].y, vals[3].y, vals[4].y, vals[5].y, vals[6].y, vals[7].y],
        );
        Hex { x, y }
    }

    /// Coordinate wise minimum of the 4 coordinates.
    pub fn simd_min4(vals: [Hex; 4]) -> (r: Hex)
        ensures
            forall|i: int| 0 <= i < 4 ==> r.x <= (#[trigger] vals[i]).x && r.y <= vals[i].y,
            exists|i: int| 0 <= i < 4 && r.x == (#[trigger] vals[i]).x,
            exists|i: int| 0 <= i < 4 && r.y == (#[trigger] vals[i]).y,
    {
        let x = reduce_min4([vals[0].x, vals[1].x, vals[2].x, vals[3].x]);
        let y = reduce_min4([vals[0].y, vals[1].y, vals[2].y, vals[3].y]);
        assert(x == vals[0].x || x == vals[1].x || x == vals[2].x || x == vals[3].x);
        assert(y == vals[0].y || y == vals[1].y || y == vals[2].y || y == vals[3].y);
        Hex { x, y }
    }

    /// Coordinate wise maximum of the 4 coordinates.
    pub fn simd_max4(vals: [Hex; 4]) -> (r: Hex)
        ensures
            forall|i: int| 0 <= i < 4 ==> r.x >= (#[trigger] vals[i]).x && r.y >= vals[i].y,
            exists|i: int| 0 <= i < 4 && r.x == (#[trigger] vals[i]).x,
            exists|i: int| 0 <= i < 4 && r.y == (#[trigger] vals[i]).y,
    {
        let x = reduce_max4([vals[0].x, vals[1].x, vals[2].x, vals[3].x]);
        let y = reduce_max4([vals[0].y, vals[1].y, vals[2].y, vals[3].y]);
        assert(x == vals[0].x || x == vals[1].x || x == vals[2].x || x == vals[3].x);
        assert(y == vals[0].y || y == vals[1].y || y == vals[2].y || y == vals[3].y);
        Hex { x, y }
    }

    /// Coordinate wise minimum of the 8 coordinates.
    pub fn simd_min8(vals: [Hex; 8]) -> (r: Hex)
        ensures
            forall|i: int| 0 <= i < 8 ==> r.x <= (#[trigger] vals[i]).x && r.y <= vals[i].y,
            exists|i: int| 0 <= i < 8 && r.x == (#[trigger] vals[i]).x,
            exists|i: int| 0 <= i < 8 && r.y == (#[trigger] vals[i]).y,
    {
        let x = reduce_min8(
            [vals[0].x, vals[1].x, vals[2].x, vals[3].x, vals[4].x, vals[5].x, vals[6].x, vals[7].x],
        );
        let y = reduce_min8(
            [vals[0].y, vals[1].y, vals[2].y, vals[3].y, vals[4].y, vals[5].y, vals[6].y, vals[7].y],
        );
        assert(x == vals[0].x || x == vals[1].x || x == vals[2].x || x == vals[3].x || x == vals[4].x || x
            == vals[5].x || x == vals[6].x || x == vals[7].x);
        assert(y == vals[0].y || y == vals[1].y || y == vals[2].y || y == vals[3].y || y == vals[4].y || y
            == vals[5].y || y == vals[6].y || y == vals[7].y);
        Hex { x, y }
    }

    /// Coordinate wise maximum of the 8 coordinates.
    pub fn simd_max8(vals: [Hex; 8]) -> (r: Hex)
        ensures
            forall|i: int| 0 <= i < 8 ==> r.x >= (#[trigger] vals[i]).x && r.y >= vals[i].y,
            exists|i: int| 0 <= i < 8 && r.x == (#[trigger] vals[i]).x,
            exists|i: int| 0 <= i < 8 && r.y == (#[trigger] vals[i]).y,
    {
        let x = reduce_max8(
            [vals[0].x, vals[1].x, vals[2].x, vals[3].x, vals[4].x, vals[5].x, vals[6].x, vals[7].x],
        );
        let y = reduce_max8(
            [vals[0].y, vals[1].y, vals[2].y, vals[3].y, vals[4].y, vals[5].y, vals[6].y, vals[7].y],
        );
        assert(x == vals[0].x || x == vals[1].x || x == vals[2].x || x == vals[3].x || x == vals[4].x || x
            == vals[5].x || x == vals[6].x || x == vals[7].x);
        assert(y == vals[0].y || y == vals[1].y || y == vals[2].y || y == vals[3].y || y == vals[4].y || y
            == vals[5].y || y == vals[6].y || y == vals[7].y);
        Hex { x, y }
    }
}

} // verus!
