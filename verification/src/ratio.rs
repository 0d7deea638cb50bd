//! Exact rational numbers over machine integers.
//!
//! Every length, factor and transform coefficient in this library is a
//! `Ratio`: a numerator and a positive denominator, both `i64`. Results are
//! kept unreduced, so the contracts of the arithmetic operations state the
//! resulting numerator and denominator exactly. The operations are checked:
//! they return `None` exactly when a defining product or sum falls outside
//! the `i64` range.

use vstd::prelude::*;

verus! {

/// A rational number: `num / den`, with `den >= 1`.
#[derive(Clone, Copy, Debug, PartialEq, Eq, Structural)]
pub struct Ratio {
    pub num: i64,
    pub den: i64,
}

/// The mathematical value of a `Ratio`, as a pair (numerator, denominator).
pub open spec fn rat(r: Ratio) -> (int, int) {
    (r.num as int, r.den as int)
}

/// Whether an unbounded integer fits in an `i64`.
pub open spec fn in_i64(n: int) -> bool {
    i64::MIN <= n <= i64::MAX
}

/// Product of two rational values, unreduced.
pub open spec fn rmul(a: (int, int), b: (int, int)) -> (int, int) {
    (a.0 * b.0, a.1 * b.1)
}

/// Sum of two rational values, over the common denominator, unreduced.
pub open spec fn radd(a: (int, int), b: (int, int)) -> (int, int) {
    (a.0 * b.1 + b.0 * a.1, a.1 * b.1)
}

/// Whether the product of two rational values is representable.
pub open spec fn mul_ok(a: (int, int), b: (int, int)) -> bool {
    in_i64(a.0 * b.0) && in_i64(a.1 * b.1)
}

/// Whether the sum of two rational values is representable, including the
/// two cross products it is computed from.
pub open spec fn add_ok(a: (int, int), b: (int, int)) -> bool {
    &&& in_i64(a.0 * b.1)
    &&& in_i64(b.0 * a.1)
    &&& in_i64(a.0 * b.1 + b.0 * a.1)
    &&& in_i64(a.1 * b.1)
}

/// Equality of rational values by cross multiplication. Sound whenever both
/// denominators are positive.
pub open spec fn req(a: (int, int), b: (int, int)) -> bool {
    a.0 * b.1 == b.0 * a.1
}

/// Order on rational values by cross multiplication. Sound whenever both
/// denominators are positive.
pub open spec fn rle(a: (int, int), b: (int, int)) -> bool {
    a.0 * b.1 <= b.0 * a.1
}

/// The `Ratio` with the given rational value, meaningful when both
/// components fit in `i64`.
pub open spec fn ratio_of(p: (int, int)) -> Ratio {
    Ratio { num: p.0 as i64, den: p.1 as i64 }
}

/// Multiplies two `i64` values exactly, in the wider `i128`.
fn wide_mul(a: i64, b: i64) -> (r: i128)
    ensures
        r == a * b,
{
    proof {
        assert(i128::MIN <= a * b <= i128::MAX) by (nonlinear_arith)
            requires
                i64::MIN <= a <= i64::MAX,
                i64::MIN <= b <= i64::MAX,
        ;
    }
    (a as i128) * (b as i128)
}

impl Ratio {
    /// A well-formed `Ratio` has a positive denominator.
    pub open spec fn wf(self) -> bool {
        self.den >= 1
    }

    /// Builds the rational `num / den`.
    pub fn new(num: i64, den: i64) -> (r: Ratio)
        requires
            den >= 1,
        ensures
            r.wf(),
            rat(r) == (num as int, den as int),
    {
        Ratio { num, den }
    }

    /// The rational with value `n`.
    pub fn from_int(n: i64) -> (r: Ratio)
        ensures
            r.wf(),
            rat(r) == (n as int, 1int),
    {
        Ratio { num: n, den: 1 }
    }

    /// Checked product. `None` exactly on `i64` overflow.
    pub fn checked_mul(self, other: Ratio) -> (r: Option<Ratio>)
        requires
            self.wf(),
            other.wf(),
        ensures
            r is Some <==> mul_ok(rat(self), rat(other)),
            r is Some ==> r->Some_0.wf() && rat(r->Some_0) == rmul(rat(self), rat(other)),
    {
        let num = self.num.checked_mul(other.num)?;
        let den = self.den.checked_mul(other.den)?;
        assert(den >= 1) by (nonlinear_arith)
            requires
                den == self.den * other.den,
                self.den >= 1,
                other.den >= 1,
        ;
        Some(Ratio { num, den })
    }

    /// Checked sum. `None` exactly on `i64` overflow in one of the two
    /// cross products, their sum, or the common denominator.
    pub fn checked_add(self, other: Ratio) -> (r: Option<Ratio>)
        requires
            self.wf(),
            other.wf(),
        ensures
            r is Some <==> add_ok(rat(self), rat(other)),
            r is Some ==> r->Some_0.wf() && rat(r->Some_0) == radd(rat(self), rat(other)),
    {
        let a = self.num.checked_mul(other.den)?;
        let b = other.num.checked_mul(self.den)?;
        let num = a.checked_add(b)?;
        let den = self.den.checked_mul(other.den)?;
        assert(den >= 1) by (nonlinear_arith)
            requires
                den == self.den * other.den,
                self.den >= 1,
                other.den >= 1,
        ;
        Some(Ratio { num, den })
    }

    /// Whether `self <= other` as rational numbers.
    pub fn le(self, other: Ratio) -> (r: bool)
        requires
            self.wf(),
            other.wf(),
        ensures
            r == rle(rat(self), rat(other)),
    {
        let lhs: i128 = wide_mul(self.num, other.den);
        let rhs: i128 = wide_mul(other.num, self.den);
        lhs <= rhs
    }

    /// Whether `self` and `other` denote the same rational number.
    pub fn same_value(self, other: Ratio) -> (r: bool)
        requires
            self.wf(),
            other.wf(),
        ensures
            r == req(rat(self), rat(other)),
    {
        let lhs: i128 = wide_mul(self.num, other.den);
        let rhs: i128 = wide_mul(other.num, self.den);
        lhs == rhs
    }
}

} // verus!
