//! Conversions between axial coordinates and the doubled, offset and hexmod
//! coordinate systems.
use crate::hex::{fits_i32, Hex};
use vstd::prelude::*;

verus! {

/// Layout mode for doubled coordinates conversion.
#[derive(Clone, Copy, Debug, Default, PartialEq, Eq, Structural)]
pub enum DoubledHexMode {
    /// Doubles column values
    #[default]
    DoubledWidth,
    /// Doubles row values
    DoubledHeight,
}

/// Layout mode for offset coordinates conversion.
#[derive(Clone, Copy, Debug, Default, PartialEq, Eq, Structural)]
pub enum OffsetHexMode {
    /// Vertical layout, shoves even columns down
    EvenColumns,
    /// Vertical layout, shoves odd columns down
    OddColumns,
    /// Horizontal layout, shoves even rows right
    EvenRows,
    /// Horizontal layout, shoves odd rows right
    #[default]
    OddRows,
}

/// `v & 1` is the parity of `v`, and `v` is twice its half plus that parity.
proof fn lemma_low_bit(v: i32)
    ensures
        (v & 1) == 0 || (v & 1) == 1,
        v == 2 * (v >> 1) + (v & 1),
        (v & 1) as int == (v as int) % 2,
{
    assert((v & 1) == 0 || (v & 1) == 1) by (bit_vector);
    assert(v == 2 * (v >> 1) + (v & 1)) by (bit_vector);
}

/// Doubled coordinates `[column, row]` of `(x, y)`.
pub open spec fn doubled_spec(x: int, y: int, mode: DoubledHexMode) -> (int, int) {
    match mode {
        DoubledHexMode::DoubledWidth => (2 * x + y, y),
        DoubledHexMode::DoubledHeight => (x, 2 * y + x),
    }
}

/// Offset coordinates `[column, row]` of `(x, y)`: the shoved axis is moved by
/// half the other axis, rounded up for the even modes and down for the odd
/// ones.
pub open spec fn offset_spec(x: int, y: int, mode: OffsetHexMode) -> (int, int) {
    match mode {
        OffsetHexMode::EvenColumns => (x, y + (x + 1) / 2),
        OffsetHexMode::OddColumns => (x, y + x / 2),
        OffsetHexMode::EvenRows => (x + (y + 1) / 2, y),
        OffsetHexMode::OddRows => (x + y / 2, y),
    }
}

/// Axial coordinates of the offset coordinates `[col, row]`.
pub open spec fn from_offset_spec(col: int, row: int, mode: OffsetHexMode) -> (int, int) {
    match mode {
        OffsetHexMode::EvenColumns => (col, row - (col + 1) / 2),
        OffsetHexMode::OddColumns => (col, row - col / 2),
        OffsetHexMode::EvenRows => (col - (row + 1) / 2, row),
        OffsetHexMode::OddRows => (col - row / 2, row),
    }
}

/// Number of coordinates in an hexagonal range of radius `r`.
pub open spec fn range_count_spec(r: int) -> int {
    3 * r * (r + 1) + 1
}

/// Hexmod coordinate of `(x, y)` for an hexagonal range of radius `r`.
pub open spec fn hexmod_spec(x: int, y: int, r: int) -> int {
    (y + (3 * r + 2) * x) % range_count_spec(r)
}

impl Hex {
    /// Converts `self` to doubled coordinates `[column, row]` according to
    /// `mode`
    pub fn to_doubled_coordinates(self, mode: DoubledHexMode) -> (r: [i32; 2])
        requires
            fits_i32(doubled_spec(self.x as int, self.y as int, mode).0),
            fits_i32(doubled_spec(self.x as int, self.y as int, mode).1),
            mode == DoubledHexMode::DoubledWidth ==> fits_i32(2 * self.x),
            mode == DoubledHexMode::DoubledHeight ==> fits_i32(2 * self.y),
        ensures
            (r[0] as int, r[1] as int) == doubled_spec(self.x as int, self.y as int, mode),
    {
        match mode {
            DoubledHexMode::DoubledWidth => [2 * self.x + self.y, self.y],
            DoubledHexMode::DoubledHeight => [self.x, 2 * self.y + self.x],
        }
    }

    /// Converts doubled coordinates `[column, row]` to axial coordinates
    /// according to `mode`
    pub fn from_doubled_coordinates(coords: [i32; 2], mode: DoubledHexMode) -> (r: Self)
        requires
            mode == DoubledHexMode::DoubledWidth ==> fits_i32(coords[0] - coords[1]),
            mode == DoubledHexMode::DoubledHeight ==> fits_i32(coords[1] - coords[0]),
        ensures
            mode == DoubledHexMode::DoubledWidth ==> r.x == crate::ops::trunc_div(
                coords[0] - coords[1],
                2,
            ) && r.y == coords[1],
            mode == DoubledHexMode::DoubledHeight ==> r.x == coords[0] && r.y
                == crate::ops::trunc_div(coords[1] - coords[0], 2),
    {
        let col = coords[0];
        let row = coords[1];
        match mode {
            DoubledHexMode::DoubledWidth => Hex::new((col - row) / 2, row),
            DoubledHexMode::DoubledHeight => Hex::new(col, (row - col) / 2),
        }
    }

    /// Converts `self` to offset coordinates `[column, row]` according to
    /// `mode`
    pub fn to_offset_coordinates(self, mode: OffsetHexMode) -> (r: [i32; 2])
        requires
            self.x < i32::MAX,
            self.y < i32::MAX,
            fits_i32(offset_spec(self.x as int, self.y as int, mode).0),
            fits_i32(offset_spec(self.x as int, self.y as int, mode).1),
        ensures
            (r[0] as int, r[1] as int) == offset_spec(self.x as int, self.y as int, mode),
    {
        proof {
            lemma_low_bit(self.x);
            lemma_low_bit(self.y);
        }
        let x = self.x;
        let y = self.y;
        match mode {
            OffsetHexMode::EvenColumns => [x, y + (x + (x & 1)) / 2],
            OffsetHexMode::OddColumns => [x, y + (x - (x & 1)) / 2],
            OffsetHexMode::EvenRows => [x + (y + (y & 1)) / 2, y],
            OffsetHexMode::OddRows => [x + (y - (y & 1)) / 2, y],
        }
    }

    /// Converts offset coordinates `[column, row]` to axial coordinates
    /// according to `mode`
    pub fn from_offset_coordinates(coords: [i32; 2], mode: OffsetHexMode) -> (r: Self)
        requires
            coords[0] < i32::MAX,
            coords[1] < i32::MAX,
            fits_i32(from_offset_spec(coords[0] as int, coords[1] as int, mode).0),
            fits_i32(from_offset_spec(coords[0] as int, coords[1] as int, mode).1),
        ensures
            (r.x as int, r.y as int) == from_offset_spec(coords[0] as int, coords[1] as int, mode),
    {
        let col = coords[0];
        let row = coords[1];
        proof {
            lemma_low_bit(col);
            lemma_low_bit(row);
        }
        match mode {
            OffsetHexMode::EvenColumns => Hex::new(col, row - (col + (col & 1)) / 2),
            OffsetHexMode::OddColumns => Hex::new(col, row - (col - (col & 1)) / 2),
            OffsetHexMode::EvenRows => Hex::new(col - (row + (row & 1)) / 2, row),
            OffsetHexMode::OddRows => Hex::new(col - (row - (row & 1)) / 2, row),
        }
    }
}

impl Hex {
    /// Counts how many coordinates there are in an hexagonal range of radius
    /// `range`: `3 * range * (range + 1) + 1`
    pub fn range_count(range: u32) -> (r: u32)
        requires
            range_count_spec(range as int) <= u32::MAX,
        ensures
            r == range_count_spec(range as int),
    {
        proof {
            assert(3 * range <= 3 * range * (range + 1)) by (nonlinear_arith)
                requires
                    range >= 0,
            ;
            assert(3 * range * (range + 1) == (3 * range) * (range + 1)) by (nonlinear_arith);
        }
        let a = 3 * range;
        proof {
            assert((range + 1) * a <= u32::MAX) by (nonlinear_arith)
                requires
                    a == 3 * range,
                    3 * range * (range + 1) + 1 <= u32::MAX,
            ;
        }
        let b = (range as u64 + 1) * (a as u64);
        proof {
            assert(b == 3 * range * (range + 1)) by (nonlinear_arith)
                requires
                    b == (range + 1) * a,
                    a == 3 * range,
            ;
        }
        (b + 1) as u32
    }

    /// Shift constant used for hexmod operations: `3 * range + 2`
    pub fn shift(range: u32) -> (r: u32)
        requires
            3 * range + 2 <= u32::MAX,
        ensures
            r == 3 * range + 2,
    {
        3 * range + 2
    }

    /// Converts `self` to hexmod coordinates for an hexagonal range of radius
    /// `range`: `(y + (3 * range + 2) * x)` modulo the range count
    pub fn to_hexmod_coordinates(self, range: u32) -> (r: u32)
        requires
            range_count_spec(range as int) <= i32::MAX,
            fits_i32((3 * range + 2) * self.x),
            fits_i32(self.y + (3 * range + 2) * self.x),
        ensures
            r == hexmod_spec(self.x as int, self.y as int, range as int),
            r < range_count_spec(range as int),
    {
        proof {
            assert(3 * range + 2 <= i32::MAX) by (nonlinear_arith)
                requires
                    range >= 0,
                    3 * range * (range + 1) + 1 <= i32::MAX,
            ;
        }
        let area = Self::range_count(range) as i32;
        let sh = Self::shift(range);
        assert(sh == 3 * range + 2);
        let shift = sh as i32;
        let v = self.y + shift * self.x;
        let m = v.checked_rem_euclid(area).unwrap();
        proof {
            assert(0 <= m < area) by {
                vstd::arithmetic::div_mod::lemma_mod_bound(v as int, area as int);
            }
        }
        m as u32
    }

    /// Converts hexmod coordinates of an hexagonal range of radius `range`
    /// back to axial coordinates.
    pub fn from_hexmod_coordinates(coord: u32, range: u32) -> (r: Self)
        requires
            coord <= i32::MAX,
            3 * range + 2 <= i32::MAX,
            fits_i32(hexmod_x_spec(coord as int, range as int)),
            fits_i32(hexmod_y_spec(coord as int, range as int)),
        ensures
            r.x == hexmod_x_spec(coord as int, range as int),
            r.y == hexmod_y_spec(coord as int, range as int),
    {
        let shift = Self::shift(range) as i64;
        let range = range as i64;
        let coord = coord as i64;
        let ms = (coord + range) / shift;
        let mcs = (coord + 2 * range) / (shift - 1);
        proof {
            lemma_div_bounds(coord + range, shift as int);
            lemma_div_bounds(coord + 2 * range, shift - 1);
            assert(0 <= ms * (range + 1) <= ms * shift) by (nonlinear_arith)
                requires
                    0 <= ms,
                    0 <= range + 1 <= shift,
            ;
            assert(0 <= ms * (2 * range + 1) <= ms * shift) by (nonlinear_arith)
                requires
                    0 <= ms,
                    0 <= 2 * range + 1 <= shift,
            ;
            assert(0 <= mcs * range <= mcs * (shift - 1)) by (nonlinear_arith)
                requires
                    0 <= mcs,
                    0 <= range <= shift - 1,
            ;
            assert(0 <= mcs * (range + 1) <= mcs * (shift - 1)) by (nonlinear_arith)
                requires
                    0 <= mcs,
                    0 <= range + 1 <= shift - 1,
            ;
        }
        proof {
            assert(mcs * -range == -(mcs * range)) by (nonlinear_arith);
            assert(ms * (-2 * range - 1) == -(ms * (2 * range + 1))) by (nonlinear_arith);
            assert(mcs * (-range - 1) == -(mcs * (range + 1))) by (nonlinear_arith);
        }
        let x = ms * (range + 1) + mcs * -range;
        let y = coord + ms * (-2 * range - 1) + mcs * (-range - 1);
        Self::new(x as i32, y as i32)
    }
}

/// Bounds of the quotient of a natural number by a positive divisor.
proof fn lemma_div_bounds(a: int, b: int)
    requires
        a >= 0,
        b > 0,
    ensures
        0 <= a / b <= a,
        (a / b) * b <= a,
{
    vstd::arithmetic::div_mod::lemma_fundamental_div_mod(a, b);
    vstd::arithmetic::div_mod::lemma_div_pos_is_pos(a, b);
    vstd::arithmetic::div_mod::lemma_div_is_ordered_by_denominator(a, 1, b);
    vstd::arithmetic::div_mod::lemma_mod_bound(a, b);
    assert(b * (a / b) == (a / b) * b) by (nonlinear_arith);
}

/// `x` axial coordinate of the hexmod coordinate `c` of a range of radius `r`.
pub open spec fn hexmod_x_spec(c: int, r: int) -> int {
    ((c + r) / (3 * r + 2)) * (r + 1) - ((c + 2 * r) / (3 * r + 1)) * r
}

/// `y` axial coordinate of the hexmod coordinate `c` of a range of radius `r`.
pub open spec fn hexmod_y_spec(c: int, r: int) -> int {
    c - ((c + r) / (3 * r + 2)) * (2 * r + 1) - ((c + 2 * r) / (3 * r + 1)) * (r + 1)
}

/// Converting to doubled coordinates and back gives the original coordinates.
pub proof fn lemma_doubled_round_trip(x: int, y: int, mode: DoubledHexMode)
    ensures
        ({
            let (c, r) = doubled_spec(x, y, mode);
            match mode {
                DoubledHexMode::DoubledWidth => crate::ops::trunc_div(c - r, 2) == x && r == y,
                DoubledHexMode::DoubledHeight => c == x && crate::ops::trunc_div(r - c, 2) == y,
            }
        }),
{
}

/// Converting to offset coordinates and back gives the original coordinates.
pub proof fn lemma_offset_round_trip(x: int, y: int, mode: OffsetHexMode)
    ensures
        ({
            let (c, r) = offset_spec(x, y, mode);
            from_offset_spec(c, r, mode) == (x, y)
        }),
{
}

/// Hexmod coordinates are below the number of coordinates in the range, and
/// adding the center of any chunk of radius `r` (see [`Hex::to_higher_res`])
/// does not change them.
pub proof fn lemma_hexmod_chunk_invariant(x: int, y: int, r: int, a: int, b: int)
    requires
        r >= 0,
    ensures
        0 <= hexmod_spec(x, y, r) < range_count_spec(r),
        hexmod_spec(x + crate::resolution::higher_x(a, b, r), y + crate::resolution::higher_y(a, b, r), r)
            == hexmod_spec(x, y, r),
{
    let n = range_count_spec(r);
    assert(n > 0) by (nonlinear_arith)
        requires
            r >= 0,
            n == 3 * r * (r + 1) + 1,
    ;
    let hx = crate::resolution::higher_x(a, b, r);
    let hy = crate::resolution::higher_y(a, b, r);
    assert((y + hy) + (3 * r + 2) * (x + hx) == n * (2 * a + b) + (y + (3 * r + 2) * x)) by (nonlinear_arith)
        requires
            n == 3 * r * (r + 1) + 1,
            hx == a * (r + 1) - r * (-a - b),
            hy == b * (r + 1) - r * a,
    ;
    vstd::arithmetic::div_mod::lemma_mod_multiples_vanish(2 * a + b, y + (3 * r + 2) * x, n);
    vstd::arithmetic::div_mod::lemma_mod_bound(y + (3 * r + 2) * x, n);
}

/// Every value below the number of coordinates of the range of radius `r`
/// is the hexmod coordinate of some coordinate of that range: together with
/// [`lemma_hexmod_injective`], the hexmod coordinates number the range
/// exactly onto `0 .. range_count`.
pub proof fn lemma_hexmod_onto(m: int, r: int)
    requires
        r >= 0,
        0 <= m < range_count_spec(r),
    ensures
        ({
            let (x, y) = crate::resolution::local_spec(0, m, r);
            crate::hex::hex_norm(x, y) <= r && hexmod_spec(x, y, r) == m
        }),
{
    let (lx, ly) = crate::resolution::lower_spec(0, m, r);
    let (x, y) = crate::resolution::local_spec(0, m, r);
    crate::resolution::lemma_local_in_range(0, m, r);
    lemma_hexmod_chunk_invariant(x, y, r, lx, ly);
    assert(x + crate::resolution::higher_x(lx, ly, r) == 0);
    assert(y + crate::resolution::higher_y(lx, ly, r) == m);
    assert(0 * (3 * r + 2) == 0) by (nonlinear_arith);
    vstd::arithmetic::div_mod::lemma_small_mod(m as nat, range_count_spec(r) as nat);
}

/// Two coordinates of the hexagonal range of radius `r` around the origin
/// with the same hexmod coordinates are equal: as those coordinates are below
/// the size of the range, they number the range without repetition.
pub proof fn lemma_hexmod_injective(x1: int, y1: int, x2: int, y2: int, r: int)
    requires
        r >= 0,
        crate::hex::hex_norm(x1, y1) <= r,
        crate::hex::hex_norm(x2, y2) <= r,
        hexmod_spec(x1, y1, r) == hexmod_spec(x2, y2, r),
    ensures
        x1 == x2,
        y1 == y2,
{
    lemma_hexmod_round_trip(x1, y1, r);
    lemma_hexmod_round_trip(x2, y2, r);
}

/// Converting the coordinates `(x, y)` of an hexagonal range of radius `r`
/// to hexmod coordinates and back gives `(x, y)`.
pub proof fn lemma_hexmod_round_trip(x: int, y: int, r: int)
    requires
        r >= 0,
        crate::hex::hex_norm(x, y) <= r,
    ensures
        hexmod_x_spec(hexmod_spec(x, y, r), r) == x,
        hexmod_y_spec(hexmod_spec(x, y, r), r) == y,
{
    let a = range_count_spec(r);
    let s = 3 * r + 2;
    let u = y + s * x;
    let m = hexmod_spec(x, y, r);
    assert(-a < u < a) by (nonlinear_arith)
        requires
            -r <= x <= r,
            -r <= y <= r,
            -r <= x + y <= r,
            u == y + s * x,
            s == 3 * r + 2,
            a == 3 * r * (r + 1) + 1,
            r >= 0,
    ;
    assert(a > 0) by (nonlinear_arith)
        requires
            r >= 0,
            a == 3 * r * (r + 1) + 1,
    ;
    if u >= 0 {
        assert(u == 0 * a + u);
        vstd::arithmetic::div_mod::lemma_fundamental_div_mod_converse(u, a, 0, u);
        assert(m == u);
        assert(m + r == x * s + (y + r)) by (nonlinear_arith)
            requires
                m == y + s * x,
        ;
        vstd::arithmetic::div_mod::lemma_fundamental_div_mod_converse(m + r, s, x, y + r);
        assert(m + 2 * r == x * (s - 1) + (x + y + 2 * r)) by (nonlinear_arith)
            requires
                m == y + s * x,
        ;
        vstd::arithmetic::div_mod::lemma_fundamental_div_mod_converse(m + 2 * r, s - 1, x, x + y + 2 * r);
        assert(x * (r + 1) - x * r == x) by (nonlinear_arith);
        assert(m - x * (2 * r + 1) - x * (r + 1) == y) by (nonlinear_arith)
            requires
                m == y + s * x,
                s == 3 * r + 2,
        ;
    } else {
        vstd::arithmetic::div_mod::lemma_fundamental_div_mod_converse(u, a, -1, u + a);
        assert(u == -1 * a + (u + a));
        assert(m == u + a);
        assert(m + r == (x + r) * s + (y + 2 * r + 1)) by (nonlinear_arith)
            requires
                m == y + s * x + a,
                s == 3 * r + 2,
                a == 3 * r * (r + 1) + 1,
        ;
        vstd::arithmetic::div_mod::lemma_fundamental_div_mod_converse(m + r, s, x + r, y + 2 * r + 1);
        assert(m + 2 * r == (x + r + 1) * (s - 1) + (x + y + r)) by (nonlinear_arith)
            requires
                m == y + s * x + a,
                s == 3 * r + 2,
                a == 3 * r * (r + 1) + 1,
        ;
        vstd::arithmetic::div_mod::lemma_fundamental_div_mod_converse(m + 2 * r, s - 1, x + r + 1, x + y + r);
        assert((x + r) * (r + 1) - (x + r + 1) * r == x) by (nonlinear_arith);
        assert(m - (x + r) * (2 * r + 1) - (x + r + 1) * (r + 1) == y) by (nonlinear_arith)
            requires
                m == y + s * x + a,
                s == 3 * r + 2,
                a == 3 * r * (r + 1) + 1,
        ;
    }
}

} // verus!
