//! Affine transforms over exact rationals.
//!
//! A `Matrix` is the usual 2x3 affine transform: a point (x, y) maps to
//! (xx*x + xy*y + x0, yx*x + yy*y + y0). Composition is checked: it returns
//! `None` exactly when a coefficient of the product falls outside the `i64`
//! range of the rational representation.

use vstd::prelude::*;

use crate::ratio::{add_ok, mul_ok, radd, rat, ratio_of, rmul, Ratio};

verus! {

/// A 2x3 affine transform with rational coefficients.
#[derive(Clone, Copy, Debug, PartialEq, Eq, Structural)]
pub struct Matrix {
    pub xx: Ratio,
    pub yx: Ratio,
    pub xy: Ratio,
    pub yy: Ratio,
    pub x0: Ratio,
    pub y0: Ratio,
}

/// The rational value `a1*b1 + a2*b2`, unreduced.
pub open spec fn muladd2(a1: (int, int), b1: (int, int), a2: (int, int), b2: (int, int)) -> (
    int,
    int,
) {
    radd(rmul(a1, b1), rmul(a2, b2))
}

/// Whether `a1*b1 + a2*b2` is representable, step by step.
pub open spec fn muladd2_ok(
    a1: (int, int),
    b1: (int, int),
    a2: (int, int),
    b2: (int, int),
) -> bool {
    mul_ok(a1, b1) && mul_ok(a2, b2) && add_ok(rmul(a1, b1), rmul(a2, b2))
}

/// Computes `a1*b1 + a2*b2` with checked arithmetic.
fn mul_add2(a1: Ratio, b1: Ratio, a2: Ratio, b2: Ratio) -> (r: Option<Ratio>)
    requires
        a1.wf(),
        b1.wf(),
        a2.wf(),
        b2.wf(),
    ensures
        r is Some <==> muladd2_ok(rat(a1), rat(b1), rat(a2), rat(b2)),
        r is Some ==> r->Some_0.wf() && rat(r->Some_0) == muladd2(
            rat(a1),
            rat(b1),
            rat(a2),
            rat(b2),
        ),
{
    let p = a1.checked_mul(b1)?;
    let q = a2.checked_mul(b2)?;
    p.checked_add(q)
}

/// Whether a transform is the identity, as rational values: unit scale, no
/// shear, no translation.
pub open spec fn is_identity(m: Matrix) -> bool {
    &&& rat(m.xx) == (1int, 1int)
    &&& rat(m.yx) == (0int, 1int)
    &&& rat(m.xy) == (0int, 1int)
    &&& rat(m.yy) == (1int, 1int)
    &&& rat(m.x0) == (0int, 1int)
    &&& rat(m.y0) == (0int, 1int)
}

impl Matrix {
    /// All coefficients are well-formed rationals.
    pub open spec fn wf(self) -> bool {
        &&& self.xx.wf()
        &&& self.yx.wf()
        &&& self.xy.wf()
        &&& self.yy.wf()
        &&& self.x0.wf()
        &&& self.y0.wf()
    }

    /// The identity transform.
    pub fn identity() -> (r: Matrix)
        ensures
            r.wf(),
            is_identity(r),
    {
        Matrix {
            xx: Ratio::from_int(1),
            yx: Ratio::from_int(0),
            xy: Ratio::from_int(0),
            yy: Ratio::from_int(1),
            x0: Ratio::from_int(0),
            y0: Ratio::from_int(0),
        }
    }

    /// Whether the composition `a` then `b` is representable, coefficient by
    /// coefficient, in the order `multiply` computes them.
    pub open spec fn mul_in_range(a: Matrix, b: Matrix) -> bool {
        &&& muladd2_ok(rat(a.xx), rat(b.xx), rat(a.yx), rat(b.xy))
        &&& muladd2_ok(rat(a.xx), rat(b.yx), rat(a.yx), rat(b.yy))
        &&& muladd2_ok(rat(a.xy), rat(b.xx), rat(a.yy), rat(b.xy))
        &&& muladd2_ok(rat(a.xy), rat(b.yx), rat(a.yy), rat(b.yy))
        &&& muladd2_ok(rat(a.x0), rat(b.xx), rat(a.y0), rat(b.xy))
        &&& add_ok(muladd2(rat(a.x0), rat(b.xx), rat(a.y0), rat(b.xy)), rat(b.x0))
        &&& muladd2_ok(rat(a.x0), rat(b.yx), rat(a.y0), rat(b.yy))
        &&& add_ok(muladd2(rat(a.x0), rat(b.yx), rat(a.y0), rat(b.yy)), rat(b.y0))
    }

    /// Composes two transforms: the result applies `a` first, then `b`.
    /// `None` exactly when a coefficient overflows.
    pub fn multiply(a: &Matrix, b: &Matrix) -> (r: Option<Matrix>)
        requires
            a.wf(),
            b.wf(),
        ensures
            r is Some <==> Matrix::mul_in_range(*a, *b),
            r is Some ==> r->Some_0.wf() && r->Some_0 == mul_matrix(*a, *b),
    {
        let xx = mul_add2(a.xx, b.xx, a.yx, b.xy)?;
        let yx = mul_add2(a.xx, b.yx, a.yx, b.yy)?;
        let xy = mul_add2(a.xy, b.xx, a.yy, b.xy)?;
        let yy = mul_add2(a.xy, b.yx, a.yy, b.yy)?;
        let x0 = mul_add2(a.x0, b.xx, a.y0, b.xy)?.checked_add(b.x0)?;
        let y0 = mul_add2(a.x0, b.yx, a.y0, b.yy)?.checked_add(b.y0)?;
        Some(Matrix { xx, yx, xy, yy, x0, y0 })
    }
}

/// The composition `a` then `b` as a `Matrix` value, meaningful when
/// `mul_in_range` holds.
pub open spec fn mul_matrix(a: Matrix, b: Matrix) -> Matrix {
    Matrix {
        xx: ratio_of(muladd2(rat(a.xx), rat(b.xx), rat(a.yx), rat(b.xy))),
        yx: ratio_of(muladd2(rat(a.xx), rat(b.yx), rat(a.yx), rat(b.yy))),
        xy: ratio_of(muladd2(rat(a.xy), rat(b.xx), rat(a.yy), rat(b.xy))),
        yy: ratio_of(muladd2(rat(a.xy), rat(b.yx), rat(a.yy), rat(b.yy))),
        x0: ratio_of(radd(muladd2(rat(a.x0), rat(b.xx), rat(a.y0), rat(b.xy)), rat(b.x0))),
        y0: ratio_of(radd(muladd2(rat(a.x0), rat(b.yx), rat(a.y0), rat(b.yy)), rat(b.y0))),
    }
}

/// Where a transform sends the point (x, y), as rational values.
pub open spec fn pt_spec(m: Matrix, x: Ratio, y: Ratio) -> ((int, int), (int, int)) {
    (
        radd(muladd2(rat(m.xx), rat(x), rat(m.xy), rat(y)), rat(m.x0)),
        radd(muladd2(rat(m.yx), rat(x), rat(m.yy), rat(y)), rat(m.y0)),
    )
}

/// Whether transforming the point (x, y) stays representable.
pub open spec fn pt_ok(m: Matrix, x: Ratio, y: Ratio) -> bool {
    &&& muladd2_ok(rat(m.xx), rat(x), rat(m.xy), rat(y))
    &&& add_ok(muladd2(rat(m.xx), rat(x), rat(m.xy), rat(y)), rat(m.x0))
    &&& muladd2_ok(rat(m.yx), rat(x), rat(m.yy), rat(y))
    &&& add_ok(muladd2(rat(m.yx), rat(x), rat(m.yy), rat(y)), rat(m.y0))
}

impl Matrix {
    /// Applies the transform to a point. `None` exactly when a coordinate
    /// overflows.
    pub fn transform_point(&self, x: Ratio, y: Ratio) -> (r: Option<(Ratio, Ratio)>)
        requires
            self.wf(),
            x.wf(),
            y.wf(),
        ensures
            r is Some <==> pt_ok(*self, x, y),
            r is Some ==> r->Some_0.0.wf() && r->Some_0.1.wf() && (
                rat(r->Some_0.0),
                rat(r->Some_0.1),
            ) == pt_spec(*self, x, y),
    {
        let px = mul_add2(self.xx, x, self.xy, y)?.checked_add(self.x0)?;
        let py = mul_add2(self.yx, x, self.yy, y)?.checked_add(self.y0)?;
        Some((px, py))
    }
}

} // verus!

