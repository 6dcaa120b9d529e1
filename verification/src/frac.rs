//! Exact rational points.
//!
//! World-space and fractional grid-space coordinates are rationals sharing a
//! single positive denominator, `(xn / den, yn / den)`.  Keeping coordinates
//! exact lets the inverse projection undo the forward projection without any
//! rounding, which is what makes the grid/world round trip provable.

use vstd::prelude::*;
use vstd::arithmetic::div_mod::{
    lemma_fundamental_div_mod, lemma_fundamental_div_mod_converse,
};

verus! {

/// A point of the rational plane: `(xn / den, yn / den)` with `den > 0`.
#[derive(Clone, Copy, Debug, PartialEq, Eq, Structural)]
pub struct Point {
    pub xn: i128,
    pub yn: i128,
    pub den: i128,
}

impl Point {
    /// The representation invariant: a positive denominator.
    pub open spec fn wf(self) -> bool {
        self.den > 0
    }

    /// Both numerators within `nb` and the denominator within `db`,
    /// in absolute value.  Bounds like these keep the intermediate
    /// products of the projection arithmetic inside `i128`.
    pub open spec fn bounded(self, nb: int, db: int) -> bool {
        &&& -nb <= self.xn <= nb
        &&& -nb <= self.yn <= nb
        &&& 0 < self.den <= db
    }

    /// The two points denote the same rational pair.
    pub open spec fn same_value(self, other: Point) -> bool {
        &&& self.xn * other.den == other.xn * self.den
        &&& self.yn * other.den == other.yn * self.den
    }

    /// Builds the point `(xn / den, yn / den)`.
    pub fn new(xn: i128, yn: i128, den: i128) -> (r: Point)
        requires
            den > 0,
        ensures
            r == (Point { xn, yn, den }),
    {
        Point { xn, yn, den }
    }

    /// True when the point is exactly the integer pair `(x, y)`.
    pub fn is_integer_pair(&self, x: i64, y: i64) -> (r: bool)
        requires
            self.wf(),
            self.den <= 0x7fff_ffff_ffff_ffff,
        ensures
            r <==> (self.xn == x * self.den && self.yn == y * self.den),
    {
        proof {
            lemma_abs_mul_le(
                x as int,
                self.den as int,
                0x8000_0000_0000_0000,
                0x7fff_ffff_ffff_ffff,
            );
            lemma_abs_mul_le(
                y as int,
                self.den as int,
                0x8000_0000_0000_0000,
                0x7fff_ffff_ffff_ffff,
            );
        }
        self.xn == (x as i128) * self.den && self.yn == (y as i128) * self.den
    }
}

/// `|a| <= ba` and `|b| <= bb` bound the product: `|a * b| <= ba * bb`.
pub proof fn lemma_abs_mul_le(a: int, b: int, ba: int, bb: int)
    by (nonlinear_arith)
    requires
        -ba <= a <= ba,
        -bb <= b <= bb,
        0 <= ba,
        0 <= bb,
    ensures
        -(ba * bb) <= a * b <= ba * bb,
{
}

/// Floor division of `a` by a positive `b`: the exec counterpart of the
/// mathematical (Euclidean) quotient `a / b` used in specifications.
pub fn floor_div(a: i128, b: i128) -> (r: i128)
    requires
        b > 0,
        a > i128::MIN,
    ensures
        r == a as int / b as int,
{
    if a >= 0 {
        let ua: u128 = a as u128;
        let ub: u128 = b as u128;
        let q: u128 = ua / ub;
        proof {
            lemma_fundamental_div_mod(ua as int, ub as int);
            lemma_fundamental_div_mod_converse(
                a as int,
                b as int,
                (ua as int / ub as int),
                (ua as int % ub as int),
            );
        }
        q as i128
    } else {
        let ua: u128 = (-a) as u128;
        let ub: u128 = b as u128;
        let q: u128 = ua / ub;
        let rem: u128 = ua % ub;
        proof {
            lemma_fundamental_div_mod(ua as int, ub as int);
        }
        if rem == 0 {
            proof {
                assert(a as int == b as int * (-(q as int)) + 0) by (nonlinear_arith)
                    requires
                        ua as int == ub as int * (q as int) + (rem as int),
                        rem as int == 0,
                        a as int == -(ua as int),
                        b == ub,
                ;
                lemma_fundamental_div_mod_converse(a as int, b as int, -(q as int), 0);
            }
            -(q as i128)
        } else {
            proof {
                assert(a as int == b as int * (-(q as int) - 1) + (b as int - rem as int))
                    by (nonlinear_arith)
                    requires
                        ua as int == ub as int * (q as int) + (rem as int),
                        a as int == -(ua as int),
                        b == ub,
                ;
                lemma_fundamental_div_mod_converse(
                    a as int,
                    b as int,
                    -(q as int) - 1,
                    b as int - rem as int,
                );
            }
            -(q as i128) - 1
        }
    }
}

} // verus!
