//! Summaries of collections of coordinates (average, bounds, center), and a
//! sequence of coordinates that knows how many remain.
use crate::bounds::{bounds_center, bounds_fit, bounds_radius, HexBounds};
use crate::hex::{fits_i32, Hex};
use crate::ops::trunc_div;
use vstd::prelude::*;

verus! {

/// Sum of the `x` coordinates of `s`.
pub open spec fn sum_x(s: Seq<Hex>) -> int
    decreases s.len(),
{
    if s.len() == 0 {
        0
    } else {
        sum_x(s.drop_last()) + s.last().x
    }
}

/// Sum of the `y` coordinates of `s`.
pub open spec fn sum_y(s: Seq<Hex>) -> int
    decreases s.len(),
{
    if s.len() == 0 {
        0
    } else {
        sum_y(s.drop_last()) + s.last().y
    }
}

/// Every running sum of the coordinates of `s` is representable, and so is
/// its length.
pub open spec fn sums_fit(s: Seq<Hex>) -> bool {
    &&& s.len() <= i32::MAX
    &&& forall|k: int| 0 <= k <= s.len() ==> fits_i32(#[trigger] sum_x(s.take(k))) && fits_i32(sum_y(s.take(k)))
}

/// Product of the `x` coordinates of `s`.
pub open spec fn product_x(s: Seq<Hex>) -> int
    decreases s.len(),
{
    if s.len() == 0 {
        1
    } else {
        product_x(s.drop_last()) * s.last().x
    }
}

/// Product of the `y` coordinates of `s`.
pub open spec fn product_y(s: Seq<Hex>) -> int
    decreases s.len(),
{
    if s.len() == 0 {
        1
    } else {
        product_y(s.drop_last()) * s.last().y
    }
}

/// Every running sum of the coordinates of `s` is representable.
pub open spec fn running_sums_fit(s: Seq<Hex>) -> bool {
    forall|k: int| 0 <= k <= s.len() ==> fits_i32(#[trigger] sum_x(s.take(k))) && fits_i32(sum_y(s.take(k)))
}

/// Every running product of the coordinates of `s` is representable.
pub open spec fn running_products_fit(s: Seq<Hex>) -> bool {
    forall|k: int| 0 <= k <= s.len() ==> fits_i32(#[trigger] product_x(s.take(k))) && fits_i32(product_y(s.take(k)))
}

impl Hex {
    /// Adds up the coordinates, starting from the origin.
    pub fn sum_of(hexes: &[Hex]) -> (r: Hex)
        requires
            running_sums_fit(hexes@),
        ensures
            r.x == sum_x(hexes@),
            r.y == sum_y(hexes@),
    {
        let mut sx: i32 = 0;
        let mut sy: i32 = 0;
        let mut i: usize = 0;
        while i < hexes.len()
            invariant
                0 <= i <= hexes.len(),
                running_sums_fit(hexes@),
                sx == sum_x(hexes@.take(i as int)),
                sy == sum_y(hexes@.take(i as int)),
            decreases hexes.len() - i,
        {
            proof {
                let next = hexes@.take(i + 1);
                assert(next.drop_last() =~= hexes@.take(i as int));
                assert(fits_i32(sum_x(next)) && fits_i32(sum_y(next)));
            }
            sx = sx + hexes[i].x;
            sy = sy + hexes[i].y;
            i += 1;
        }
        assert(hexes@.take(hexes.len() as int) =~= hexes@);
        Hex { x: sx, y: sy }
    }

    /// Multiplies the coordinates together, coordinate wise, starting from
    /// `(1, 1)`.
    pub fn product_of(hexes: &[Hex]) -> (r: Hex)
        requires
            running_products_fit(hexes@),
        ensures
            r.x == product_x(hexes@),
            r.y == product_y(hexes@),
    {
        let mut px: i32 = 1;
        let mut py: i32 = 1;
        let mut i: usize = 0;
        while i < hexes.len()
            invariant
                0 <= i <= hexes.len(),
                running_products_fit(hexes@),
                px == product_x(hexes@.take(i as int)),
                py == product_y(hexes@.take(i as int)),
            decreases hexes.len() - i,
        {
            proof {
                let next = hexes@.take(i + 1);
                assert(next.drop_last() =~= hexes@.take(i as int));
                assert(fits_i32(product_x(next)) && fits_i32(product_y(next)));
            }
            px = px * hexes[i].x;
            py = py * hexes[i].y;
            i += 1;
        }
        assert(hexes@.take(hexes.len() as int) =~= hexes@);
        Hex { x: px, y: py }
    }
}

/// Summaries of a collection of coordinates.
pub trait HexIterExt: Sized {
    /// The running sums of the coordinates, and their number, are small
    /// enough for the average to be computed.
    spec fn sum_fits(&self) -> bool;

    /// The bounds of the coordinates are representable.
    spec fn coords_fit(&self) -> bool;

    /// Computes the average of the coordinates, or the origin when there are
    /// none.
    fn average(self) -> (r: Hex)
        requires
            self.sum_fits(),
    ;

    /// Computes the center of the smallest bounds containing the
    /// coordinates.
    fn center(self) -> (r: Hex)
        requires
            self.coords_fit(),
    ;

    /// Computes the smallest bounds containing the coordinates.
    fn bounds(self) -> (r: HexBounds)
        requires
            self.coords_fit(),
    ;
}

impl HexIterExt for Vec<Hex> {
    open spec fn sum_fits(&self) -> bool {
        sums_fit(self@)
    }

    open spec fn coords_fit(&self) -> bool {
        self.len() > 0 ==> bounds_fit(self@)
    }

    /// The coordinate wise sum of the coordinates divided by their number,
    /// rounded towards zero.
    fn average(self) -> (r: Hex)
        ensures
            self.len() == 0 ==> r == (Hex { x: 0, y: 0 }),
            self.len() > 0 ==> r.x == trunc_div(sum_x(self@), self.len() as int) && r.y == trunc_div(
                sum_y(self@),
                self.len() as int,
            ),
    {
        let mut sx: i32 = 0;
        let mut sy: i32 = 0;
        let mut i: usize = 0;
        while i < self.len()
            invariant
                0 <= i <= self.len(),
                sums_fit(self@),
                sx == sum_x(self@.take(i as int)),
                sy == sum_y(self@.take(i as int)),
            decreases self.len() - i,
        {
            proof {
                let next = self@.take(i + 1);
                assert(next.drop_last() =~= self@.take(i as int));
                assert(fits_i32(sum_x(next)) && fits_i32(sum_y(next)));
            }
            sx = sx + self[i].x;
            sy = sy + self[i].y;
            i += 1;
        }
        assert(self@.take(self.len() as int) =~= self@);
        let count: i32 = if self.len() == 0 {
            1
        } else {
            self.len() as i32
        };
        assert(self.len() == 0 ==> sx == 0 && sy == 0);
        Hex { x: sx / count, y: sy / count }
    }

    /// The center of [`HexIterExt::bounds`].
    fn center(self) -> (r: Hex)
        ensures
            self.len() == 0 ==> r == (Hex { x: 0, y: 0 }),
            self.len() > 0 ==> (r.x as int, r.y as int) == bounds_center(self@),
    {
        self.bounds().center
    }

    /// The smallest bounds containing every coordinate, or bounds of radius
    /// `0` at the origin for no coordinates.
    fn bounds(self) -> (r: HexBounds)
        ensures
            self.len() == 0 ==> r == (HexBounds { center: Hex { x: 0, y: 0 }, radius: 0 }),
            self.len() > 0 ==> r.radius == bounds_radius(self@) && (r.center.x as int, r.center.y as int)
                == bounds_center(self@),
            forall|i: int| 0 <= i < self.len() ==> (#[trigger] self@[i]).dist(r.center) <= r.radius,
    {
        HexBounds::from_hexes(self.as_slice())
    }
}

/// A sequence of coordinates handed out one at a time, which knows how many
/// remain.
#[derive(Debug)]
pub struct ExactSizeHexIterator {
    items: Vec<Hex>,
    index: usize,
}

impl ExactSizeHexIterator {
    #[verifier::type_invariant]
    spec fn wf(self) -> bool {
        self.index <= self.items.len()
    }

    /// The coordinates that remain, in order.
    pub closed spec fn remaining(self) -> Seq<Hex> {
        self.items@.skip(self.index as int)
    }

    /// Starts handing out `items`, in order.
    pub fn new(items: Vec<Hex>) -> (r: Self)
        ensures
            r.remaining() == items@,
    {
        let r = ExactSizeHexIterator { items, index: 0 };
        assert(r.remaining() =~= r.items@);
        r
    }

    /// Hands out the next coordinate, or `None` when none remain.
    pub fn next(&mut self) -> (r: Option<Hex>)
        ensures
            old(self).remaining().len() == 0 ==> r is None && final(self).remaining() == old(self).remaining(),
            old(self).remaining().len() > 0 ==> r == Some(old(self).remaining()[0]) && final(self).remaining()
                == old(self).remaining().drop_first(),
    {
        proof {
            use_type_invariant(&*self);
        }
        if self.index < self.items.len() {
            let h = self.items[self.index];
            self.index = self.index + 1;
            assert(self.remaining() =~= old(self).remaining().drop_first());
            Some(h)
        } else {
            None
        }
    }

    /// Number of coordinates that remain.
    pub fn len(&self) -> (r: usize)
        ensures
            r == self.remaining().len(),
    {
        proof {
            use_type_invariant(self);
        }
        self.items.len() - self.index
    }

    /// Exact bounds on the number of coordinates that remain.
    pub fn size_hint(&self) -> (r: (usize, Option<usize>))
        ensures
            r == (self.remaining().len() as usize, Some(self.remaining().len() as usize)),
    {
        let n = self.len();
        (n, Some(n))
    }

    /// The coordinates that remain, in order.
    pub fn into_vec(self) -> (r: Vec<Hex>)
        ensures
            r@ == self.remaining(),
    {
        proof {
            use_type_invariant(&self);
        }
        let mut v: Vec<Hex> = Vec::new();
        let mut i = self.index;
        while i < self.items.len()
            invariant
                self.index <= i <= self.items.len(),
                v@ == self.items@.subrange(self.index as int, i as int),
            decreases self.items.len() - i,
        {
            v.push(self.items[i]);
            i += 1;
        }
        v
    }
}

} // verus!
