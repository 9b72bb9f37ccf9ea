//! Wrappers ordering coordinates by length, by `x` then `y`, or by `y` then
//! `x`.
use crate::hex::{wide_length, Hex};
use std::cmp::Ordering;
use vstd::prelude::*;
use vstd::std_specs::cmp::PartialOrdSpecImpl;

verus! {

/// Three-way comparison of two integers.
pub open spec fn compare_ints(a: int, b: int) -> Ordering {
    if a < b {
        Ordering::Less
    } else if a == b {
        Ordering::Equal
    } else {
        Ordering::Greater
    }
}

/// Three-way comparison of two `i32` values.
pub open spec fn compare_i32(a: i32, b: i32) -> Ordering {
    if a < b {
        Ordering::Less
    } else if a == b {
        Ordering::Equal
    } else {
        Ordering::Greater
    }
}

/// Three-way comparison by `a1` and `b1`, then by `a2` and `b2` when the
/// first ones are equal.
pub open spec fn compare_pairs(a1: i32, a2: i32, b1: i32, b2: i32) -> Ordering {
    if a1 == b1 {
        compare_i32(a2, b2)
    } else {
        compare_i32(a1, b1)
    }
}

/// Three-way comparison of two `i32` values.
fn compare_small(a: i32, b: i32) -> (r: Ordering)
    ensures
        r == compare_i32(a, b),
{
    if a < b {
        Ordering::Less
    } else if a == b {
        Ordering::Equal
    } else {
        Ordering::Greater
    }
}

/// Three-way comparison of two `i64` values.
fn compare_i64(a: i64, b: i64) -> (r: Ordering)
    ensures
        r == (if a < b {
            Ordering::Less
        } else if a == b {
            Ordering::Equal
        } else {
            Ordering::Greater
        }),
{
    if a < b {
        Ordering::Less
    } else if a == b {
        Ordering::Equal
    } else {
        Ordering::Greater
    }
}

/// Coordinates ordered by their hexagonal length.
#[derive(Clone, Copy, Debug, PartialEq, Eq, Structural)]
pub struct OrdByLength(pub Hex);

/// Coordinates ordered by `x`, then by `y`.
#[derive(Clone, Copy, Debug, PartialEq, Eq, Structural)]
pub struct OrdByXY(pub Hex);

/// Coordinates ordered by `y`, then by `x`.
#[derive(Clone, Copy, Debug, PartialEq, Eq, Structural)]
pub struct OrdByYX(pub Hex);

impl std::convert::From<Hex> for OrdByLength {
    fn from(value: Hex) -> OrdByLength {
        OrdByLength(value)
    }
}

impl vstd::std_specs::convert::FromSpecImpl<Hex> for OrdByLength {
    open spec fn obeys_from_spec() -> bool {
        true
    }

    open spec fn from_spec(v: Hex) -> OrdByLength {
        OrdByLength(v)
    }
}

impl std::convert::From<Hex> for OrdByXY {
    fn from(value: Hex) -> OrdByXY {
        OrdByXY(value)
    }
}

impl vstd::std_specs::convert::FromSpecImpl<Hex> for OrdByXY {
    open spec fn obeys_from_spec() -> bool {
        true
    }

    open spec fn from_spec(v: Hex) -> OrdByXY {
        OrdByXY(v)
    }
}

impl std::convert::From<Hex> for OrdByYX {
    fn from(value: Hex) -> OrdByYX {
        OrdByYX(value)
    }
}

impl vstd::std_specs::convert::FromSpecImpl<Hex> for OrdByYX {
    open spec fn obeys_from_spec() -> bool {
        true
    }

    open spec fn from_spec(v: Hex) -> OrdByYX {
        OrdByYX(v)
    }
}

impl std::cmp::PartialOrd for OrdByLength {
    fn partial_cmp(&self, other: &OrdByLength) -> (r: Option<Ordering>) {
        Some(compare_i64(wide_length(self.0), wide_length(other.0)))
    }
}

impl PartialOrdSpecImpl for OrdByLength {
    open spec fn obeys_partial_cmp_spec() -> bool {
        true
    }

    open spec fn partial_cmp_spec(&self, other: &OrdByLength) -> Option<Ordering> {
        Some(compare_ints(self.0.norm(), other.0.norm()))
    }
}

impl std::cmp::PartialOrd for OrdByXY {
    fn partial_cmp(&self, other: &OrdByXY) -> (r: Option<Ordering>) {
        if self.0.x == other.0.x {
            Some(compare_small(self.0.y, other.0.y))
        } else {
            Some(compare_small(self.0.x, other.0.x))
        }
    }
}

impl PartialOrdSpecImpl for OrdByXY {
    open spec fn obeys_partial_cmp_spec() -> bool {
        true
    }

    open spec fn partial_cmp_spec(&self, other: &OrdByXY) -> Option<Ordering> {
        Some(compare_pairs(self.0.x, self.0.y, other.0.x, other.0.y))
    }
}

impl std::cmp::PartialOrd for OrdByYX {
    fn partial_cmp(&self, other: &OrdByYX) -> (r: Option<Ordering>) {
        if self.0.y == other.0.y {
            Some(compare_small(self.0.x, other.0.x))
        } else {
            Some(compare_small(self.0.y, other.0.y))
        }
    }
}

impl PartialOrdSpecImpl for OrdByYX {
    open spec fn obeys_partial_cmp_spec() -> bool {
        true
    }

    open spec fn partial_cmp_spec(&self, other: &OrdByYX) -> Option<Ordering> {
        Some(compare_pairs(self.0.y, self.0.x, other.0.y, other.0.x))
    }
}

} // verus!
