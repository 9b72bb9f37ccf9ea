//! Arithmetic, bitwise and shift operators on [`Hex`] coordinates, and
//! operators on directions.
use crate::direction::{DiagonalDirection, Direction};
use crate::edge_direction::{edge_x, edge_y, vertex_x, vertex_y, EdgeDirection, VertexDirection};
use crate::hex::{fits_i32, neighbor_x, neighbor_y, Hex};
use vstd::prelude::*;

verus! {

/// Truncating integer division, as Rust's `/` on signed integers.
pub open spec fn trunc_div(a: int, b: int) -> int {
    if a >= 0 {
        a / b
    } else {
        -((-a) / b)
    }
}

/// Truncating remainder, as Rust's `%` on signed integers.
pub open spec fn trunc_rem(a: int, b: int) -> int {
    if a >= 0 {
        a % b
    } else {
        -((-a) % b)
    }
}

/// Scales a unit offset component `c` (in `-1..=1`) by `k`.
fn scale_unit(c: i32, k: i32) -> (r: i32)
    requires
        -1 <= c <= 1,
        c >= 0 || k > i32::MIN,
    ensures
        r == c * k,
{
    if c == 0 {
        assert(c * k == 0) by (nonlinear_arith)
            requires
                c == 0,
        ;
        0
    } else if c == 1 {
        assert(c * k == k) by (nonlinear_arith)
            requires
                c == 1,
        ;
        k
    } else {
        assert(c * k == -k) by (nonlinear_arith)
            requires
                c == -1,
        ;
        -k
    }
}

/// Rust's `/` and `%` on `i32` are defined for this pair.
pub open spec fn div_ok(a: i32, b: i32) -> bool {
    b != 0 && !(a == i32::MIN && b == -1)
}

impl std::ops::Add<Hex> for Hex {
    type Output = Hex;

    fn add(self, rhs: Hex) -> Hex {
        self.const_add(rhs)
    }
}

impl vstd::std_specs::ops::AddSpecImpl<Hex> for Hex {
    open spec fn obeys_add_spec() -> bool {
        true
    }

    open spec fn add_req(self, rhs: Hex) -> bool {
        fits_i32(self.x + rhs.x) && fits_i32(self.y + rhs.y)
    }

    open spec fn add_spec(self, rhs: Hex) -> Hex {
        Hex { x: (self.x + rhs.x) as i32, y: (self.y + rhs.y) as i32 }
    }
}

impl std::ops::Add<i32> for Hex {
    type Output = Hex;

    fn add(self, rhs: i32) -> Hex {
        Hex { x: self.x + rhs, y: self.y + rhs }
    }
}

impl vstd::std_specs::ops::AddSpecImpl<i32> for Hex {
    open spec fn obeys_add_spec() -> bool {
        true
    }

    open spec fn add_req(self, rhs: i32) -> bool {
        fits_i32(self.x + rhs) && fits_i32(self.y + rhs)
    }

    open spec fn add_spec(self, rhs: i32) -> Hex {
        Hex { x: (self.x + rhs) as i32, y: (self.y + rhs) as i32 }
    }
}

impl std::ops::Sub<Hex> for Hex {
    type Output = Hex;

    fn sub(self, rhs: Hex) -> Hex {
        self.const_sub(rhs)
    }
}

impl vstd::std_specs::ops::SubSpecImpl<Hex> for Hex {
    open spec fn obeys_sub_spec() -> bool {
        true
    }

    open spec fn sub_req(self, rhs: Hex) -> bool {
        fits_i32(self.x - rhs.x) && fits_i32(self.y - rhs.y)
    }

    open spec fn sub_spec(self, rhs: Hex) -> Hex {
        Hex { x: (self.x - rhs.x) as i32, y: (self.y - rhs.y) as i32 }
    }
}

impl std::ops::Sub<i32> for Hex {
    type Output = Hex;

    fn sub(self, rhs: i32) -> Hex {
        Hex { x: self.x - rhs, y: self.y - rhs }
    }
}

impl vstd::std_specs::ops::SubSpecImpl<i32> for Hex {
    open spec fn obeys_sub_spec() -> bool {
        true
    }

    open spec fn sub_req(self, rhs: i32) -> bool {
        fits_i32(self.x - rhs) && fits_i32(self.y - rhs)
    }

    open spec fn sub_spec(self, rhs: i32) -> Hex {
        Hex { x: (self.x - rhs) as i32, y: (self.y - rhs) as i32 }
    }
}

impl std::ops::Mul<Hex> for Hex {
    type Output = Hex;

    fn mul(self, rhs: Hex) -> Hex {
        Hex { x: self.x * rhs.x, y: self.y * rhs.y }
    }
}

impl vstd::std_specs::ops::MulSpecImpl<Hex> for Hex {
    open spec fn obeys_mul_spec() -> bool {
        true
    }

    open spec fn mul_req(self, rhs: Hex) -> bool {
        fits_i32(self.x * rhs.x) && fits_i32(self.y * rhs.y)
    }

    open spec fn mul_spec(self, rhs: Hex) -> Hex {
        Hex { x: (self.x * rhs.x) as i32, y: (self.y * rhs.y) as i32 }
    }
}

impl std::ops::Mul<i32> for Hex {
    type Output = Hex;

    fn mul(self, rhs: i32) -> Hex {
        Hex { x: self.x * rhs, y: self.y * rhs }
    }
}

impl vstd::std_specs::ops::MulSpecImpl<i32> for Hex {
    open spec fn obeys_mul_spec() -> bool {
        true
    }

    open spec fn mul_req(self, rhs: i32) -> bool {
        fits_i32(self.x * rhs) && fits_i32(self.y * rhs)
    }

    open spec fn mul_spec(self, rhs: i32) -> Hex {
        Hex { x: (self.x * rhs) as i32, y: (self.y * rhs) as i32 }
    }
}

impl std::ops::Div<Hex> for Hex {
    type Output = Hex;

    fn div(self, rhs: Hex) -> Hex {
        Hex { x: self.x / rhs.x, y: self.y / rhs.y }
    }
}

impl vstd::std_specs::ops::DivSpecImpl<Hex> for Hex {
    open spec fn obeys_div_spec() -> bool {
        true
    }

    open spec fn div_req(self, rhs: Hex) -> bool {
        div_ok(self.x, rhs.x) && div_ok(self.y, rhs.y)
    }

    open spec fn div_spec(self, rhs: Hex) -> Hex {
        Hex { x: (trunc_div(self.x as int, rhs.x as int)) as i32, y: (trunc_div(self.y as int, rhs.y as int)) as i32 }
    }
}

impl std::ops::Div<i32> for Hex {
    type Output = Hex;

    fn div(self, rhs: i32) -> Hex {
        Hex { x: self.x / rhs, y: self.y / rhs }
    }
}

impl vstd::std_specs::ops::DivSpecImpl<i32> for Hex {
    open spec fn obeys_div_spec() -> bool {
        true
    }

    open spec fn div_req(self, rhs: i32) -> bool {
        div_ok(self.x, rhs) && div_ok(self.y, rhs)
    }

    open spec fn div_spec(self, rhs: i32) -> Hex {
        Hex { x: (trunc_div(self.x as int, rhs as int)) as i32, y: (trunc_div(self.y as int, rhs as int)) as i32 }
    }
}

impl std::ops::Rem<Hex> for Hex {
    type Output = Hex;

    fn rem(self, rhs: Hex) -> Hex {
        Hex { x: self.x % rhs.x, y: self.y % rhs.y }
    }
}

impl vstd::std_specs::ops::RemSpecImpl<Hex> for Hex {
    open spec fn obeys_rem_spec() -> bool {
        true
    }

    open spec fn rem_req(self, rhs: Hex) -> bool {
        div_ok(self.x, rhs.x) && div_ok(self.y, rhs.y)
    }

    open spec fn rem_spec(self, rhs: Hex) -> Hex {
        Hex { x: (trunc_rem(self.x as int, rhs.x as int)) as i32, y: (trunc_rem(self.y as int, rhs.y as int)) as i32 }
    }
}

impl std::ops::Rem<i32> for Hex {
    type Output = Hex;

    fn rem(self, rhs: i32) -> Hex {
        Hex { x: self.x % rhs, y: self.y % rhs }
    }
}

impl vstd::std_specs::ops::RemSpecImpl<i32> for Hex {
    open spec fn obeys_rem_spec() -> bool {
        true
    }

    open spec fn rem_req(self, rhs: i32) -> bool {
        div_ok(self.x, rhs) && div_ok(self.y, rhs)
    }

    open spec fn rem_spec(self, rhs: i32) -> Hex {
        Hex { x: (trunc_rem(self.x as int, rhs as int)) as i32, y: (trunc_rem(self.y as int, rhs as int)) as i32 }
    }
}

impl std::ops::BitAnd<Hex> for Hex {
    type Output = Hex;

    fn bitand(self, rhs: Hex) -> Hex {
        Hex { x: self.x & rhs.x, y: self.y & rhs.y }
    }
}

impl vstd::std_specs::ops::BitAndSpecImpl<Hex> for Hex {
    open spec fn obeys_bitand_spec() -> bool {
        true
    }

    open spec fn bitand_req(self, rhs: Hex) -> bool {
        true
    }

    open spec fn bitand_spec(self, rhs: Hex) -> Hex {
        Hex { x: (self.x & rhs.x) as i32, y: (self.y & rhs.y) as i32 }
    }
}

impl std::ops::BitOr<Hex> for Hex {
    type Output = Hex;

    fn bitor(self, rhs: Hex) -> Hex {
        Hex { x: self.x | rhs.x, y: self.y | rhs.y }
    }
}

impl vstd::std_specs::ops::BitOrSpecImpl<Hex> for Hex {
    open spec fn obeys_bitor_spec() -> bool {
        true
    }

    open spec fn bitor_req(self, rhs: Hex) -> bool {
        true
    }

    open spec fn bitor_spec(self, rhs: Hex) -> Hex {
        Hex { x: (self.x | rhs.x) as i32, y: (self.y | rhs.y) as i32 }
    }
}

impl std::ops::BitXor<Hex> for Hex {
    type Output = Hex;

    fn bitxor(self, rhs: Hex) -> Hex {
        Hex { x: self.x ^ rhs.x, y: self.y ^ rhs.y }
    }
}

impl vstd::std_specs::ops::BitXorSpecImpl<Hex> for Hex {
    open spec fn obeys_bitxor_spec() -> bool {
        true
    }

    open spec fn bitxor_req(self, rhs: Hex) -> bool {
        true
    }

    open spec fn bitxor_spec(self, rhs: Hex) -> Hex {
        Hex { x: (self.x ^ rhs.x) as i32, y: (self.y ^ rhs.y) as i32 }
    }
}

impl std::ops::BitAnd<i32> for Hex {
    type Output = Hex;

    fn bitand(self, rhs: i32) -> Hex {
        Hex { x: self.x & rhs, y: self.y & rhs }
    }
}

impl vstd::std_specs::ops::BitAndSpecImpl<i32> for Hex {
    open spec fn obeys_bitand_spec() -> bool {
        true
    }

    open spec fn bitand_req(self, rhs: i32) -> bool {
        true
    }

    open spec fn bitand_spec(self, rhs: i32) -> Hex {
        Hex { x: (self.x & rhs) as i32, y: (self.y & rhs) as i32 }
    }
}

impl std::ops::BitOr<i32> for Hex {
    type Output = Hex;

    fn bitor(self, rhs: i32) -> Hex {
        Hex { x: self.x | rhs, y: self.y | rhs }
    }
}

impl vstd::std_specs::ops::BitOrSpecImpl<i32> for Hex {
    open spec fn obeys_bitor_spec() -> bool {
        true
    }

    open spec fn bitor_req(self, rhs: i32) -> bool {
        true
    }

    open spec fn bitor_spec(self, rhs: i32) -> Hex {
        Hex { x: (self.x | rhs) as i32, y: (self.y | rhs) as i32 }
    }
}

impl std::ops::BitXor<i32> for Hex {
    type Output = Hex;

    fn bitxor(self, rhs: i32) -> Hex {
        Hex { x: self.x ^ rhs, y: self.y ^ rhs }
    }
}

impl vstd::std_specs::ops::BitXorSpecImpl<i32> for Hex {
    open spec fn obeys_bitxor_spec() -> bool {
        true
    }

    open spec fn bitxor_req(self, rhs: i32) -> bool {
        true
    }

    open spec fn bitxor_spec(self, rhs: i32) -> Hex {
        Hex { x: (self.x ^ rhs) as i32, y: (self.y ^ rhs) as i32 }
    }
}

impl std::ops::Shl<u32> for Hex {
    type Output = Hex;

    fn shl(self, rhs: u32) -> Hex {
        Hex { x: self.x << rhs, y: self.y << rhs }
    }
}

impl vstd::std_specs::ops::ShlSpecImpl<u32> for Hex {
    open spec fn obeys_shl_spec() -> bool {
        true
    }

    open spec fn shl_req(self, rhs: u32) -> bool {
        rhs < 32
    }

    open spec fn shl_spec(self, rhs: u32) -> Hex {
        Hex { x: (self.x << rhs) as i32, y: (self.y << rhs) as i32 }
    }
}

impl std::ops::Shr<u32> for Hex {
    type Output = Hex;

    fn shr(self, rhs: u32) -> Hex {
        Hex { x: self.x >> rhs, y: self.y >> rhs }
    }
}

impl vstd::std_specs::ops::ShrSpecImpl<u32> for Hex {
    open spec fn obeys_shr_spec() -> bool {
        true
    }

    open spec fn shr_req(self, rhs: u32) -> bool {
        rhs < 32
    }

    open spec fn shr_spec(self, rhs: u32) -> Hex {
        Hex { x: (self.x >> rhs) as i32, y: (self.y >> rhs) as i32 }
    }
}

impl std::ops::Add<EdgeDirection> for Hex {
    type Output = Hex;

    fn add(self, rhs: EdgeDirection) -> Hex {
        self.const_add(rhs.into_hex())
    }
}

impl vstd::std_specs::ops::AddSpecImpl<EdgeDirection> for Hex {
    open spec fn obeys_add_spec() -> bool {
        true
    }

    open spec fn add_req(self, rhs: EdgeDirection) -> bool {
        fits_i32(self.x + edge_x(rhs.idx())) && fits_i32(self.y + edge_y(rhs.idx()))
    }

    open spec fn add_spec(self, rhs: EdgeDirection) -> Hex {
        Hex { x: (self.x + edge_x(rhs.idx())) as i32, y: (self.y + edge_y(rhs.idx())) as i32 }
    }
}

impl std::ops::Add<VertexDirection> for Hex {
    type Output = Hex;

    fn add(self, rhs: VertexDirection) -> Hex {
        self.const_add(rhs.into_hex())
    }
}

impl vstd::std_specs::ops::AddSpecImpl<VertexDirection> for Hex {
    open spec fn obeys_add_spec() -> bool {
        true
    }

    open spec fn add_req(self, rhs: VertexDirection) -> bool {
        fits_i32(self.x + vertex_x(rhs.idx())) && fits_i32(self.y + vertex_y(rhs.idx()))
    }

    open spec fn add_spec(self, rhs: VertexDirection) -> Hex {
        Hex { x: (self.x + vertex_x(rhs.idx())) as i32, y: (self.y + vertex_y(rhs.idx())) as i32 }
    }
}

impl std::ops::Sub<EdgeDirection> for Hex {
    type Output = Hex;

    fn sub(self, rhs: EdgeDirection) -> Hex {
        self.const_sub(rhs.into_hex())
    }
}

impl vstd::std_specs::ops::SubSpecImpl<EdgeDirection> for Hex {
    open spec fn obeys_sub_spec() -> bool {
        true
    }

    open spec fn sub_req(self, rhs: EdgeDirection) -> bool {
        fits_i32(self.x - edge_x(rhs.idx())) && fits_i32(self.y - edge_y(rhs.idx()))
    }

    open spec fn sub_spec(self, rhs: EdgeDirection) -> Hex {
        Hex { x: (self.x - edge_x(rhs.idx())) as i32, y: (self.y - edge_y(rhs.idx())) as i32 }
    }
}

impl std::ops::Sub<VertexDirection> for Hex {
    type Output = Hex;

    fn sub(self, rhs: VertexDirection) -> Hex {
        self.const_sub(rhs.into_hex())
    }
}

impl vstd::std_specs::ops::SubSpecImpl<VertexDirection> for Hex {
    open spec fn obeys_sub_spec() -> bool {
        true
    }

    open spec fn sub_req(self, rhs: VertexDirection) -> bool {
        fits_i32(self.x - vertex_x(rhs.idx())) && fits_i32(self.y - vertex_y(rhs.idx()))
    }

    open spec fn sub_spec(self, rhs: VertexDirection) -> Hex {
        Hex { x: (self.x - vertex_x(rhs.idx())) as i32, y: (self.y - vertex_y(rhs.idx())) as i32 }
    }
}

impl std::ops::Neg for Hex {
    type Output = Hex;

    fn neg(self) -> Hex {
        self.const_neg()
    }
}

impl vstd::std_specs::ops::NegSpecImpl for Hex {
    open spec fn obeys_neg_spec() -> bool {
        true
    }

    open spec fn neg_req(self) -> bool {
        self.x > i32::MIN && self.y > i32::MIN
    }

    open spec fn neg_spec(self) -> Hex {
        Hex { x: (-self.x) as i32, y: (-self.y) as i32 }
    }
}

impl std::ops::Mul<i32> for Direction {
    type Output = Hex;

    fn mul(self, rhs: i32) -> Hex {
        let h = Hex::neighbor_coord(self);
        Hex { x: scale_unit(h.x, rhs), y: scale_unit(h.y, rhs) }
    }
}

impl vstd::std_specs::ops::MulSpecImpl<i32> for Direction {
    open spec fn obeys_mul_spec() -> bool {
        true
    }

    open spec fn mul_req(self, rhs: i32) -> bool {
        rhs > i32::MIN || (neighbor_x(self.idx()) >= 0 && neighbor_y(self.idx()) >= 0)
    }

    open spec fn mul_spec(self, rhs: i32) -> Hex {
        Hex { x: (neighbor_x(self.idx()) * rhs) as i32, y: (neighbor_y(self.idx()) * rhs) as i32 }
    }
}

impl std::ops::Mul<i32> for EdgeDirection {
    type Output = Hex;

    fn mul(self, rhs: i32) -> Hex {
        let h = self.into_hex();
        Hex { x: scale_unit(h.x, rhs), y: scale_unit(h.y, rhs) }
    }
}

impl vstd::std_specs::ops::MulSpecImpl<i32> for EdgeDirection {
    open spec fn obeys_mul_spec() -> bool {
        true
    }

    open spec fn mul_req(self, rhs: i32) -> bool {
        rhs > i32::MIN || (edge_x(self.idx()) >= 0 && edge_y(self.idx()) >= 0)
    }

    open spec fn mul_spec(self, rhs: i32) -> Hex {
        Hex { x: (edge_x(self.idx()) * rhs) as i32, y: (edge_y(self.idx()) * rhs) as i32 }
    }
}

impl std::ops::Neg for Direction {
    type Output = Direction;

    fn neg(self) -> Direction {
        self.const_neg()
    }
}

impl vstd::std_specs::ops::NegSpecImpl for Direction {
    open spec fn obeys_neg_spec() -> bool {
        true
    }

    open spec fn neg_req(self) -> bool {
        true
    }

    open spec fn neg_spec(self) -> Direction {
        Direction::from_idx(self.idx() + 3)
    }
}

impl std::ops::Neg for DiagonalDirection {
    type Output = DiagonalDirection;

    fn neg(self) -> DiagonalDirection {
        self.const_neg()
    }
}

impl vstd::std_specs::ops::NegSpecImpl for DiagonalDirection {
    open spec fn obeys_neg_spec() -> bool {
        true
    }

    open spec fn neg_req(self) -> bool {
        true
    }

    open spec fn neg_spec(self) -> DiagonalDirection {
        DiagonalDirection::from_idx(self.idx() + 3)
    }
}

impl std::ops::Neg for EdgeDirection {
    type Output = EdgeDirection;

    fn neg(self) -> EdgeDirection {
        let r = self.const_neg();
        proof {
            r.lemma_idx(EdgeDirection::from_idx(self.idx() + 3), self.idx() + 3);
        }
        r
    }
}

impl vstd::std_specs::ops::NegSpecImpl for EdgeDirection {
    open spec fn obeys_neg_spec() -> bool {
        true
    }

    open spec fn neg_req(self) -> bool {
        true
    }

    open spec fn neg_spec(self) -> EdgeDirection {
        EdgeDirection::from_idx(self.idx() + 3)
    }
}

impl std::ops::Neg for VertexDirection {
    type Output = VertexDirection;

    fn neg(self) -> VertexDirection {
        let r = self.const_neg();
        proof {
            r.lemma_idx(VertexDirection::from_idx(self.idx() + 3), self.idx() + 3);
        }
        r
    }
}

impl vstd::std_specs::ops::NegSpecImpl for VertexDirection {
    open spec fn obeys_neg_spec() -> bool {
        true
    }

    open spec fn neg_req(self) -> bool {
        true
    }

    open spec fn neg_spec(self) -> VertexDirection {
        VertexDirection::from_idx(self.idx() + 3)
    }
}

impl std::ops::Shr<usize> for Direction {
    type Output = Direction;

    fn shr(self, rhs: usize) -> Direction {
        let r = self.rotate_cw(rhs);
        proof {
            crate::direction::lemma_direction_idx_injective(r, Direction::from_idx(self.idx() + 6 - rhs % 6));
        }
        r
    }
}

impl vstd::std_specs::ops::ShrSpecImpl<usize> for Direction {
    open spec fn obeys_shr_spec() -> bool {
        true
    }

    open spec fn shr_req(self, rhs: usize) -> bool {
        true
    }

    open spec fn shr_spec(self, rhs: usize) -> Direction {
        Direction::from_idx(self.idx() + 6 - rhs % 6)
    }
}

impl std::ops::Shl<usize> for Direction {
    type Output = Direction;

    fn shl(self, rhs: usize) -> Direction {
        let r = self.rotate_ccw(rhs);
        proof {
            crate::direction::lemma_direction_idx_injective(r, Direction::from_idx(self.idx() + rhs % 6));
        }
        r
    }
}

impl vstd::std_specs::ops::ShlSpecImpl<usize> for Direction {
    open spec fn obeys_shl_spec() -> bool {
        true
    }

    open spec fn shl_req(self, rhs: usize) -> bool {
        true
    }

    open spec fn shl_spec(self, rhs: usize) -> Direction {
        Direction::from_idx(self.idx() + rhs % 6)
    }
}

impl std::ops::Shr<usize> for DiagonalDirection {
    type Output = DiagonalDirection;

    fn shr(self, rhs: usize) -> DiagonalDirection {
        let r = self.rotate_cw(rhs);
        proof {
            crate::direction::lemma_diagonal_idx_injective(r, DiagonalDirection::from_idx(self.idx() + 6 - rhs % 6));
        }
        r
    }
}

impl vstd::std_specs::ops::ShrSpecImpl<usize> for DiagonalDirection {
    open spec fn obeys_shr_spec() -> bool {
        true
    }

    open spec fn shr_req(self, rhs: usize) -> bool {
        true
    }

    open spec fn shr_spec(self, rhs: usize) -> DiagonalDirection {
        DiagonalDirection::from_idx(self.idx() + 6 - rhs % 6)
    }
}

impl std::ops::Shl<usize> for DiagonalDirection {
    type Output = DiagonalDirection;

    fn shl(self, rhs: usize) -> DiagonalDirection {
        let r = self.rotate_ccw(rhs);
        proof {
            crate::direction::lemma_diagonal_idx_injective(r, DiagonalDirection::from_idx(self.idx() + rhs % 6));
        }
        r
    }
}

impl vstd::std_specs::ops::ShlSpecImpl<usize> for DiagonalDirection {
    open spec fn obeys_shl_spec() -> bool {
        true
    }

    open spec fn shl_req(self, rhs: usize) -> bool {
        true
    }

    open spec fn shl_spec(self, rhs: usize) -> DiagonalDirection {
        DiagonalDirection::from_idx(self.idx() + rhs % 6)
    }
}

impl std::convert::From<(i32, i32)> for Hex {
    fn from(value: (i32, i32)) -> Hex {
        Hex { x: value.0, y: value.1 }
    }
}

impl vstd::std_specs::convert::FromSpecImpl<(i32, i32)> for Hex {
    open spec fn obeys_from_spec() -> bool {
        true
    }

    open spec fn from_spec(v: (i32, i32)) -> Hex {
        Hex { x: v.0, y: v.1 }
    }
}

impl std::convert::From<[i32; 2]> for Hex {
    fn from(value: [i32; 2]) -> Hex {
        Hex { x: value[0], y: value[1] }
    }
}

impl vstd::std_specs::convert::FromSpecImpl<[i32; 2]> for Hex {
    open spec fn obeys_from_spec() -> bool {
        true
    }

    open spec fn from_spec(v: [i32; 2]) -> Hex {
        Hex { x: v[0], y: v[1] }
    }
}

} // verus!
