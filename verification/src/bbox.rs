//! The bounding-box accumulator: the axis-aligned extent of everything
//! drawn so far. An inactive box holds nothing; an active box holds the
//! rectangle from (x0, y0) to (x1, y1).

use vstd::prelude::*;

use crate::ratio::{rat, rle, Ratio};

verus! {

/// An axis-aligned extent accumulator. While `active` is false the box is
/// empty and its bounds are meaningless.
#[derive(Clone, Copy, Debug, PartialEq, Eq, Structural)]
pub struct BBox {
    pub active: bool,
    pub x0: Ratio,
    pub y0: Ratio,
    pub x1: Ratio,
    pub y1: Ratio,
}

/// The smaller of two rationals.
pub open spec fn rmin(a: Ratio, b: Ratio) -> Ratio {
    if rle(rat(a), rat(b)) {
        a
    } else {
        b
    }
}

/// The larger of two rationals.
pub open spec fn rmax(a: Ratio, b: Ratio) -> Ratio {
    if rle(rat(a), rat(b)) {
        b
    } else {
        a
    }
}

fn min_exec(a: Ratio, b: Ratio) -> (r: Ratio)
    requires
        a.wf(),
        b.wf(),
    ensures
        r == rmin(a, b),
{
    if a.le(b) {
        a
    } else {
        b
    }
}

fn max_exec(a: Ratio, b: Ratio) -> (r: Ratio)
    requires
        a.wf(),
        b.wf(),
    ensures
        r == rmax(a, b),
{
    if a.le(b) {
        b
    } else {
        a
    }
}

/// The union of two boxes: what `insert` leaves in the accumulator.
pub open spec fn union_spec(dst: BBox, src: BBox) -> BBox {
    if !src.active {
        dst
    } else if !dst.active {
        src
    } else {
        BBox {
            active: true,
            x0: rmin(dst.x0, src.x0),
            y0: rmin(dst.y0, src.y0),
            x1: rmax(dst.x1, src.x1),
            y1: rmax(dst.y1, src.y1),
        }
    }
}

impl BBox {
    /// All bounds are well-formed rationals.
    pub open spec fn wf(self) -> bool {
        self.x0.wf() && self.y0.wf() && self.x1.wf() && self.y1.wf()
    }

    /// An empty accumulator.
    pub fn new() -> (r: BBox)
        ensures
            r.wf(),
            !r.active,
    {
        BBox {
            active: false,
            x0: Ratio::from_int(0),
            y0: Ratio::from_int(0),
            x1: Ratio::from_int(0),
            y1: Ratio::from_int(0),
        }
    }

    /// A box over the rectangle from (x0, y0) to (x1, y1).
    pub fn from_rect(x0: Ratio, y0: Ratio, x1: Ratio, y1: Ratio) -> (r: BBox)
        requires
            x0.wf(),
            y0.wf(),
            x1.wf(),
            y1.wf(),
        ensures
            r == (BBox { active: true, x0, y0, x1, y1 }),
    {
        BBox { active: true, x0, y0, x1, y1 }
    }

    /// Grows this box to cover `src` as well: an inactive source changes
    /// nothing, an inactive accumulator becomes the source, and otherwise
    /// each bound moves outwards as needed.
    pub fn insert(&mut self, src: &BBox)
        requires
            old(self).wf(),
            src.wf(),
        ensures
            final(self).wf(),
            *final(self) == union_spec(*old(self), *src),
    {
        if !src.active {
            return ;
        }
        if !self.active {
            *self = *src;
            return ;
        }
        self.x0 = min_exec(self.x0, src.x0);
        self.y0 = min_exec(self.y0, src.y0);
        self.x1 = max_exec(self.x1, src.x1);
        self.y1 = max_exec(self.y1, src.y1);
    }
}

} // verus!
