//! Axial coordinates packed in a single `u64`.
use crate::hex::Hex;
use vstd::prelude::*;

verus! {

/// Number of bits the `y` coordinate is shifted by in a [`PackedHex`].
pub const Y_OPERAND: u64 = 32;

/// Mask selecting the `x` coordinate in a [`PackedHex`].
pub const X_MASK: u64 = 0xFFFF_FFFF;

/// The bits of the packed coordinates `(x, y)`: `x` in the low 32 bits and
/// `y` in the high 32 bits, both in two's complement.
pub open spec fn pack_spec(x: i32, y: i32) -> u64 {
    (x as u64) & 0xFFFF_FFFF | ((y as u64) << 32u64)
}

/// Bit packed axial coordinates, in a one to one mapping with [`Hex`]
/// through [`Hex::packed`] and [`PackedHex::unpacked`].
#[derive(Clone, Copy, Debug, Default, PartialEq, Eq, Hash, Structural)]
pub struct PackedHex(u64);

impl View for PackedHex {
    type V = Hex;

    /// The coordinates held by the packed value.
    closed spec fn view(&self) -> Hex {
        Hex { x: self.0 as i32, y: (self.0 >> 32u64) as i32 }
    }
}

/// Unpacking the bits of packed coordinates gives the coordinates back.
pub proof fn lemma_pack_unpack(x: i32, y: i32)
    ensures
        pack_spec(x, y) as i32 == x,
        (pack_spec(x, y) >> 32u64) as i32 == y,
{
    assert((((x as u64) & 0xFFFF_FFFF | ((y as u64) << 32u64)) as i32) == x) by (bit_vector);
    assert(((((x as u64) & 0xFFFF_FFFF | ((y as u64) << 32u64)) >> 32u64) as i32) == y) by (bit_vector);
}

impl PackedHex {
    /// The bits of the packed coordinates.
    pub closed spec fn bits(self) -> u64 {
        self.0
    }

    /// The packed value with the given bits.
    pub closed spec fn from_bits(bits: u64) -> PackedHex {
        PackedHex(bits)
    }

    /// Instantiates new packed axial coordinates
    pub fn new(x: i32, y: i32) -> (r: Self)
        ensures
            r@ == (Hex { x, y }),
            r.bits() == pack_spec(x, y),
            r == PackedHex::from_bits(pack_spec(x, y)),
    {
        proof {
            lemma_pack_unpack(x, y);
        }
        PackedHex((x as u64) & X_MASK | ((y as u64) << Y_OPERAND))
    }

    /// Unpacks and returns the `x` axial coordinate.
    pub fn x(self) -> (r: i32)
        ensures
            r == self@.x,
    {
        self.0 as i32
    }

    /// Unpacks and returns the `y` axial coordinate.
    pub fn y(self) -> (r: i32)
        ensures
            r == self@.y,
    {
        (self.0 >> Y_OPERAND) as i32
    }

    /// Unpacks the coordinates
    pub fn unpacked(self) -> (r: Hex)
        ensures
            r == self@,
    {
        Hex { x: self.x(), y: self.y() }
    }

    /// Sets the `x` axial coordinate, keeping `y`.
    pub fn set_x(&mut self, x: i32)
        ensures
            final(self)@ == (Hex { x, y: old(self)@.y }),
    {
        let y = self.y();
        proof {
            lemma_pack_unpack(x, y);
        }
        self.0 = (x as u64) & X_MASK | ((y as u64) << Y_OPERAND);
    }

    /// Sets the `y` axial coordinate, keeping `x`.
    pub fn set_y(&mut self, y: i32)
        ensures
            final(self)@ == (Hex { x: old(self)@.x, y }),
    {
        let x = self.x();
        proof {
            lemma_pack_unpack(x, y);
        }
        self.0 = ((x as u64) & X_MASK) | ((y as u64) << Y_OPERAND);
    }
}

/// Two packed values hold the same coordinates exactly when they have the same
/// bits, when both were packed from coordinates.
pub proof fn lemma_packed_injective(a: PackedHex, b: PackedHex)
    requires
        a.bits() == pack_spec(a@.x, a@.y),
        b.bits() == pack_spec(b@.x, b@.y),
    ensures
        (a@ == b@) == (a == b),
{
}

impl Hex {
    /// Packs the coordinates in a single `u64`
    pub fn packed(self) -> (r: PackedHex)
        ensures
            r@ == self,
            r.bits() == pack_spec(self.x, self.y),
            r == PackedHex::from_bits(pack_spec(self.x, self.y)),
    {
        PackedHex::new(self.x, self.y)
    }

    /// Unpacks a `u64` made by [`Hex::as_u64`]: `x` is read from the most
    /// significant 32 bits and `y` from the least significant ones.
    pub fn from_u64(value: u64) -> (r: Self)
        ensures
            r.x == (value >> 32u64) as i32,
            r.y == (value & 0xFFFF_FFFF) as i32,
    {
        let x = (value >> 32) as i32;
        let y = (value & 0xFFFF_FFFF) as i32;
        Self::new(x, y)
    }

    /// Packs into a `u64`, `x` in the most significant 32 bits and `y` in the
    /// least significant ones, which orders the values by `x` then `y` when
    /// both are non negative.
    pub fn as_u64(self) -> (r: u64)
        ensures
            r == ((self.x as u32 as u64) << 32u64) | (self.y as u32 as u64),
    {
        let high = (self.x as u32 as u64) << 32;
        let low = self.y as u32 as u64;
        high | low
    }
}

/// Packing into a `u64` and unpacking it gives the coordinates back.
pub proof fn lemma_u64_round_trip(x: i32, y: i32)
    ensures
        ((((x as u32 as u64) << 32u64) | (y as u32 as u64)) >> 32u64) as i32 == x,
        ((((x as u32 as u64) << 32u64) | (y as u32 as u64)) & 0xFFFF_FFFF) as i32 == y,
{
    assert(((((x as u32 as u64) << 32u64) | (y as u32 as u64)) >> 32u64) as i32 == x) by (bit_vector);
    assert(((((x as u32 as u64) << 32u64) | (y as u32 as u64)) & 0xFFFF_FFFF) as i32 == y) by (bit_vector);
}

impl std::convert::From<Hex> for PackedHex {
    fn from(value: Hex) -> PackedHex {
        value.packed()
    }
}

impl vstd::std_specs::convert::FromSpecImpl<Hex> for PackedHex {
    open spec fn obeys_from_spec() -> bool {
        true
    }

    open spec fn from_spec(v: Hex) -> PackedHex {
        PackedHex::from_bits(pack_spec(v.x, v.y))
    }
}

impl std::convert::From<PackedHex> for Hex {
    fn from(value: PackedHex) -> Hex {
        value.unpacked()
    }
}

impl vstd::std_specs::convert::FromSpecImpl<PackedHex> for Hex {
    open spec fn obeys_from_spec() -> bool {
        true
    }

    open spec fn from_spec(v: PackedHex) -> Hex {
        v@
    }
}

} // verus!
