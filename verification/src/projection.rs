//! The projection engine: forward and inverse transforms between tile-grid
//! coordinates and world coordinates.
//!
//! A projection is a 2x2 matrix of rationals over one shared denominator,
//! together with a tile anchor point in normalized `[0,1]^2` tile-local
//! space.  The forward transform applies the matrix, scales by the tile
//! size, and offsets by the anchor-adjusted tile size; the inverse transform
//! undoes the offset and the scaling and applies the inverse matrix.  Both
//! are total over the rational plane; out-of-grid coordinates are valid
//! inputs and outputs, and clamping is the caller's business.
//!
//! All arithmetic is exact, so `to_grid(to_world(g))` is exactly `g`; the
//! law is [`lemma_round_trip`].

use vstd::prelude::*;
use crate::frac::{lemma_abs_mul_le, Point};

verus! {

/// Largest magnitude accepted for matrix numerators, the matrix and anchor
/// denominators, and tile side lengths.
pub const COEF_LIMIT: i64 = 4096;

/// Largest magnitude accepted for an integer grid coordinate handed to the
/// forward transform.
pub const GRID_LIMIT: i64 = 1048576;

/// Bound on the numerators of every world-space `Point` the transforms
/// accept; forward-transform results stay well inside it.
pub const WORLD_NUM_LIMIT: i128 = 1152921504606846976;

/// Bound on the denominator of every world-space `Point` the transforms
/// accept; forward-transform results stay well inside it.
pub const WORLD_DEN_LIMIT: i128 = 1099511627776;

/// Bound on the numerators of every fractional grid-space `Point` the
/// forward transform accepts.
pub const GRIDPT_NUM_LIMIT: i128 = 4194304;

/// Bound on the denominator of every fractional grid-space `Point` the
/// forward transform accepts.
pub const GRIDPT_DEN_LIMIT: i128 = 65536;

/// Bound on the numerators of the fractional grid coordinates produced by
/// the inverse transform.
pub const GRID_NUM_LIMIT: i128 = 10000000000000000000000000000000000;

/// Bound on the denominator of the fractional grid coordinates produced by
/// the inverse transform.
pub const GRID_DEN_LIMIT: i128 = 10000000000000000000000000000000;

/// A linear grid-to-world map plus a tile anchor point.
///
/// The forward matrix is `[[m00, m01], [m10, m11]] / mat_den`; the anchor is
/// `(ax / anchor_den, ay / anchor_den)`, a point of the unit square marking
/// which point of a tile's bounding box is the tile's logical origin.
#[derive(Clone, Copy, Debug, PartialEq, Eq, Structural)]
pub struct Projection {
    pub m00: i64,
    pub m01: i64,
    pub m10: i64,
    pub m11: i64,
    pub mat_den: i64,
    pub ax: i64,
    pub ay: i64,
    pub anchor_den: i64,
}

/// Determinant of the forward matrix's numerator part.
pub open spec fn det_of(p: Projection) -> int {
    p.m00 * p.m11 - p.m01 * p.m10
}

/// Numerator of the x component of the forward transform of `(gx, gy)`
/// with tile width `tsx`, over the denominator [`world_den`].
pub open spec fn world_xn(p: Projection, tsx: int, gx: int, gy: int) -> int {
    (p.m00 * gx + p.m01 * gy) * tsx * p.anchor_den + p.ax * tsx * p.mat_den
}

/// Numerator of the y component of the forward transform of `(gx, gy)`
/// with tile height `tsy`, over the denominator [`world_den`].
pub open spec fn world_yn(p: Projection, tsy: int, gx: int, gy: int) -> int {
    (p.m10 * gx + p.m11 * gy) * tsy * p.anchor_den + p.ay * tsy * p.mat_den
}

/// Denominator of the forward transform's result.
pub open spec fn world_den(p: Projection) -> int {
    p.mat_den * p.anchor_den
}

/// Numerator of the x component of the forward transform of the fractional
/// grid point `(gxn / gden, gyn / gden)` with tile width `tsx`, over the
/// denominator [`world_pt_den`].
pub open spec fn world_pt_xn(p: Projection, tsx: int, gxn: int, gyn: int, gden: int) -> int {
    (p.m00 * gxn + p.m01 * gyn) * tsx * p.anchor_den + p.ax * tsx * (p.mat_den * gden)
}

/// Numerator of the y component of the forward transform of a fractional
/// grid point with tile height `tsy`.
pub open spec fn world_pt_yn(p: Projection, tsy: int, gxn: int, gyn: int, gden: int) -> int {
    (p.m10 * gxn + p.m11 * gyn) * tsy * p.anchor_den + p.ay * tsy * (p.mat_den * gden)
}

/// Denominator of the forward transform of a fractional grid point.
pub open spec fn world_pt_den(p: Projection, gden: int) -> int {
    (p.mat_den * gden) * p.anchor_den
}

/// Unnormalized numerator of the x component of the inverse transform of
/// the world point `(wxn / wden, wyn / wden)`.
pub open spec fn grid_raw_xn(
    p: Projection,
    tsx: int,
    tsy: int,
    wxn: int,
    wyn: int,
    wden: int,
) -> int {
    p.mat_den * (p.m11 * ((wxn * p.anchor_den - p.ax * tsx * wden) * tsy) - p.m01 * ((wyn
        * p.anchor_den - p.ay * tsy * wden) * tsx))
}

/// Unnormalized numerator of the y component of the inverse transform.
pub open spec fn grid_raw_yn(
    p: Projection,
    tsx: int,
    tsy: int,
    wxn: int,
    wyn: int,
    wden: int,
) -> int {
    p.mat_den * (p.m00 * ((wyn * p.anchor_den - p.ay * tsy * wden) * tsx) - p.m10 * ((wxn
        * p.anchor_den - p.ax * tsx * wden) * tsy))
}

/// Unnormalized denominator of the inverse transform's result; its sign is
/// the sign of the determinant.
pub open spec fn grid_raw_den(p: Projection, tsx: int, tsy: int, wden: int) -> int {
    det_of(p) * (wden * p.anchor_den * tsx * tsy)
}

/// Numerator of the x component of the inverse transform, normalized so the
/// denominator [`grid_den`] is positive.
pub open spec fn grid_xn(p: Projection, tsx: int, tsy: int, wxn: int, wyn: int, wden: int) -> int {
    if det_of(p) > 0 {
        grid_raw_xn(p, tsx, tsy, wxn, wyn, wden)
    } else {
        -grid_raw_xn(p, tsx, tsy, wxn, wyn, wden)
    }
}

/// Numerator of the y component of the inverse transform, normalized so the
/// denominator [`grid_den`] is positive.
pub open spec fn grid_yn(p: Projection, tsx: int, tsy: int, wxn: int, wyn: int, wden: int) -> int {
    if det_of(p) > 0 {
        grid_raw_yn(p, tsx, tsy, wxn, wyn, wden)
    } else {
        -grid_raw_yn(p, tsx, tsy, wxn, wyn, wden)
    }
}

/// Positive denominator of the inverse transform's result.
pub open spec fn grid_den(p: Projection, tsx: int, tsy: int, wden: int) -> int {
    if det_of(p) > 0 {
        grid_raw_den(p, tsx, tsy, wden)
    } else {
        -grid_raw_den(p, tsx, tsy, wden)
    }
}

impl Projection {
    /// The representation invariant: entries within [`COEF_LIMIT`], positive
    /// denominators, the anchor inside the unit square, and an invertible
    /// matrix.
    pub open spec fn wf(self) -> bool {
        &&& -COEF_LIMIT <= self.m00 <= COEF_LIMIT
        &&& -COEF_LIMIT <= self.m01 <= COEF_LIMIT
        &&& -COEF_LIMIT <= self.m10 <= COEF_LIMIT
        &&& -COEF_LIMIT <= self.m11 <= COEF_LIMIT
        &&& 1 <= self.mat_den <= COEF_LIMIT
        &&& 1 <= self.anchor_den <= COEF_LIMIT
        &&& 0 <= self.ax <= self.anchor_den
        &&& 0 <= self.ay <= self.anchor_den
        &&& det_of(self) != 0
    }

    /// The orthogonal layout: the identity matrix with the anchor at the
    /// tile center, giving plain rectangular tiling.
    pub fn identity() -> (r: Projection)
        ensures
            r == (Projection { m00: 1i64, m01: 0i64, m10: 0i64, m11: 1i64, mat_den: 1i64, ax: 1i64, ay: 1i64, anchor_den: 2i64 }),
            r.wf(),
    {
        Projection { m00: 1, m01: 0, m10: 0, m11: 1, mat_den: 1, ax: 1, ay: 1, anchor_den: 2 }
    }

    /// The axonometric (diamond) layout: grid axes are sheared so each
    /// tile's footprint is a diamond exactly twice as wide as it is tall,
    /// with the anchor on the left edge midline so rows interleave.
    pub fn axonometric() -> (r: Projection)
        ensures
            r == (Projection { m00: 2i64, m01: -2i64, m10: 1i64, m11: 1i64, mat_den: 4i64, ax: 1i64, ay: 0i64, anchor_den: 2i64 }),
            r.wf(),
    {
        Projection { m00: 2, m01: -2, m10: 1, m11: 1, mat_den: 4, ax: 1, ay: 0, anchor_den: 2 }
    }

    /// Builds a user-supplied projection.  Returns `None` exactly when the
    /// parameters break the invariant: an entry out of range, a
    /// non-positive denominator, an anchor outside the unit square, or a
    /// singular matrix.
    pub fn new(
        m00: i64,
        m01: i64,
        m10: i64,
        m11: i64,
        mat_den: i64,
        ax: i64,
        ay: i64,
        anchor_den: i64,
    ) -> (r: Option<Projection>)
        ensures
            ({
                let c = Projection { m00, m01, m10, m11, mat_den, ax, ay, anchor_den };
                r == if c.wf() {
                    Some(c)
                } else {
                    None::<Projection>
                }
            }),
    {
        if m00 < -COEF_LIMIT || m00 > COEF_LIMIT || m01 < -COEF_LIMIT || m01 > COEF_LIMIT || m10
            < -COEF_LIMIT || m10 > COEF_LIMIT || m11 < -COEF_LIMIT || m11 > COEF_LIMIT {
            return None;
        }
        if mat_den < 1 || mat_den > COEF_LIMIT || anchor_den < 1 || anchor_den > COEF_LIMIT {
            return None;
        }
        if ax < 0 || ax > anchor_den || ay < 0 || ay > anchor_den {
            return None;
        }
        proof {
            lemma_abs_mul_le(m00 as int, m11 as int, COEF_LIMIT as int, COEF_LIMIT as int);
            lemma_abs_mul_le(m01 as int, m10 as int, COEF_LIMIT as int, COEF_LIMIT as int);
        }
        let det: i64 = m00 * m11 - m01 * m10;
        if det == 0 {
            return None;
        }
        Some(Projection { m00, m01, m10, m11, mat_den, ax, ay, anchor_den })
    }

    /// Forward transform: maps the integer grid coordinate `(gx, gy)` to
    /// the world point of the tile's logical origin, for tiles of world
    /// size `tsx` by `tsy`.
    pub fn to_world(&self, gx: i64, gy: i64, tsx: i64, tsy: i64) -> (r: Point)
        requires
            self.wf(),
            -GRID_LIMIT <= gx <= GRID_LIMIT,
            -GRID_LIMIT <= gy <= GRID_LIMIT,
            1 <= tsx <= COEF_LIMIT,
            1 <= tsy <= COEF_LIMIT,
        ensures
            r.xn == world_xn(*self, tsx as int, gx as int, gy as int),
            r.yn == world_yn(*self, tsy as int, gx as int, gy as int),
            r.den == world_den(*self),
            r.wf(),
            r.bounded(WORLD_NUM_LIMIT as int, WORLD_DEN_LIMIT as int),
    {
        proof {
            lemma_abs_mul_le(self.m00 as int, gx as int, COEF_LIMIT as int, GRID_LIMIT as int);
            lemma_abs_mul_le(self.m01 as int, gy as int, COEF_LIMIT as int, GRID_LIMIT as int);
            lemma_abs_mul_le(self.m10 as int, gx as int, COEF_LIMIT as int, GRID_LIMIT as int);
            lemma_abs_mul_le(self.m11 as int, gy as int, COEF_LIMIT as int, GRID_LIMIT as int);
        }
        let a: i128 = (self.m00 as i128) * (gx as i128) + (self.m01 as i128) * (gy as i128);
        let b: i128 = (self.m10 as i128) * (gx as i128) + (self.m11 as i128) * (gy as i128);
        proof {
            lemma_abs_mul_le(a as int, tsx as int, 8589934592, COEF_LIMIT as int);
            lemma_abs_mul_le(b as int, tsy as int, 8589934592, COEF_LIMIT as int);
        }
        let ax1: i128 = a * (tsx as i128);
        let by1: i128 = b * (tsy as i128);
        proof {
            lemma_abs_mul_le(ax1 as int, self.anchor_den as int, 35184372088832, COEF_LIMIT as int);
            lemma_abs_mul_le(by1 as int, self.anchor_den as int, 35184372088832, COEF_LIMIT as int);
            lemma_abs_mul_le(self.ax as int, tsx as int, COEF_LIMIT as int, COEF_LIMIT as int);
            lemma_abs_mul_le(self.ay as int, tsy as int, COEF_LIMIT as int, COEF_LIMIT as int);
        }
        let ax2: i128 = ax1 * (self.anchor_den as i128);
        let by2: i128 = by1 * (self.anchor_den as i128);
        let ox1: i128 = (self.ax as i128) * (tsx as i128);
        let oy1: i128 = (self.ay as i128) * (tsy as i128);
        proof {
            lemma_abs_mul_le(ox1 as int, self.mat_den as int, 16777216, COEF_LIMIT as int);
            lemma_abs_mul_le(oy1 as int, self.mat_den as int, 16777216, COEF_LIMIT as int);
            lemma_abs_mul_le(
                self.mat_den as int,
                self.anchor_den as int,
                COEF_LIMIT as int,
                COEF_LIMIT as int,
            );
        }
        let ox2: i128 = ox1 * (self.mat_den as i128);
        let oy2: i128 = oy1 * (self.mat_den as i128);
        let den: i128 = (self.mat_den as i128) * (self.anchor_den as i128);
        proof {
            assert((self.mat_den as int) * (self.anchor_den as int) > 0) by (nonlinear_arith)
                requires
                    self.mat_den >= 1,
                    self.anchor_den >= 1,
            ;
        }
        Point { xn: ax2 + ox2, yn: by2 + oy2, den }
    }

    /// Forward transform over the whole rational plane: maps the fractional
    /// grid point `g` to its world point, for tiles of world size `tsx` by
    /// `tsy`.  On integer grid coordinates it agrees with
    /// [`Projection::to_world`].
    pub fn to_world_point(&self, g: &Point, tsx: i64, tsy: i64) -> (r: Point)
        requires
            self.wf(),
            g.wf(),
            g.bounded(GRIDPT_NUM_LIMIT as int, GRIDPT_DEN_LIMIT as int),
            1 <= tsx <= COEF_LIMIT,
            1 <= tsy <= COEF_LIMIT,
        ensures
            r.xn == world_pt_xn(*self, tsx as int, g.xn as int, g.yn as int, g.den as int),
            r.yn == world_pt_yn(*self, tsy as int, g.xn as int, g.yn as int, g.den as int),
            r.den == world_pt_den(*self, g.den as int),
            r.wf(),
            r.bounded(WORLD_NUM_LIMIT as int, WORLD_DEN_LIMIT as int),
    {
        proof {
            lemma_abs_mul_le(self.m00 as int, g.xn as int, COEF_LIMIT as int, GRIDPT_NUM_LIMIT as int);
            lemma_abs_mul_le(self.m01 as int, g.yn as int, COEF_LIMIT as int, GRIDPT_NUM_LIMIT as int);
            lemma_abs_mul_le(self.m10 as int, g.xn as int, COEF_LIMIT as int, GRIDPT_NUM_LIMIT as int);
            lemma_abs_mul_le(self.m11 as int, g.yn as int, COEF_LIMIT as int, GRIDPT_NUM_LIMIT as int);
        }
        let a: i128 = (self.m00 as i128) * g.xn + (self.m01 as i128) * g.yn;
        let b: i128 = (self.m10 as i128) * g.xn + (self.m11 as i128) * g.yn;
        proof {
            lemma_abs_mul_le(a as int, tsx as int, 34359738368, COEF_LIMIT as int);
            lemma_abs_mul_le(b as int, tsy as int, 34359738368, COEF_LIMIT as int);
        }
        let ax1: i128 = a * (tsx as i128);
        let by1: i128 = b * (tsy as i128);
        proof {
            lemma_abs_mul_le(ax1 as int, self.anchor_den as int, 140737488355328, COEF_LIMIT as int);
            lemma_abs_mul_le(by1 as int, self.anchor_den as int, 140737488355328, COEF_LIMIT as int);
            lemma_abs_mul_le(self.ax as int, tsx as int, COEF_LIMIT as int, COEF_LIMIT as int);
            lemma_abs_mul_le(self.ay as int, tsy as int, COEF_LIMIT as int, COEF_LIMIT as int);
            lemma_abs_mul_le(self.mat_den as int, g.den as int, COEF_LIMIT as int, GRIDPT_DEN_LIMIT as int);
        }
        let ax2: i128 = ax1 * (self.anchor_den as i128);
        let by2: i128 = by1 * (self.anchor_den as i128);
        let ox1: i128 = (self.ax as i128) * (tsx as i128);
        let oy1: i128 = (self.ay as i128) * (tsy as i128);
        let mg: i128 = (self.mat_den as i128) * g.den;
        proof {
            lemma_abs_mul_le(ox1 as int, mg as int, 16777216, 268435456);
            lemma_abs_mul_le(oy1 as int, mg as int, 16777216, 268435456);
            lemma_abs_mul_le(mg as int, self.anchor_den as int, 268435456, COEF_LIMIT as int);
            assert((self.mat_den as int) * (g.den as int) * (self.anchor_den as int) > 0)
                by (nonlinear_arith)
                requires
                    self.mat_den >= 1,
                    g.den >= 1,
                    self.anchor_den >= 1,
            ;
        }
        let ox2: i128 = ox1 * mg;
        let oy2: i128 = oy1 * mg;
        let den: i128 = mg * (self.anchor_den as i128);
        Point { xn: ax2 + ox2, yn: by2 + oy2, den }
    }

    /// Inverse transform: maps a world point to the fractional grid
    /// coordinate it belongs to, exactly undoing [`Projection::to_world`].
    pub fn to_grid(&self, w: &Point, tsx: i64, tsy: i64) -> (r: Point)
        requires
            self.wf(),
            w.wf(),
            w.bounded(WORLD_NUM_LIMIT as int, WORLD_DEN_LIMIT as int),
            1 <= tsx <= COEF_LIMIT,
            1 <= tsy <= COEF_LIMIT,
        ensures
            r.xn == grid_xn(*self, tsx as int, tsy as int, w.xn as int, w.yn as int, w.den as int),
            r.yn == grid_yn(*self, tsx as int, tsy as int, w.xn as int, w.yn as int, w.den as int),
            r.den == grid_den(*self, tsx as int, tsy as int, w.den as int),
            r.wf(),
            r.bounded(GRID_NUM_LIMIT as int, GRID_DEN_LIMIT as int),
    {
        proof {
            lemma_abs_mul_le(w.xn as int, self.anchor_den as int, WORLD_NUM_LIMIT as int, COEF_LIMIT as int);
            lemma_abs_mul_le(w.yn as int, self.anchor_den as int, WORLD_NUM_LIMIT as int, COEF_LIMIT as int);
            lemma_abs_mul_le(self.ax as int, tsx as int, COEF_LIMIT as int, COEF_LIMIT as int);
            lemma_abs_mul_le(self.ay as int, tsy as int, COEF_LIMIT as int, COEF_LIMIT as int);
        }
        let oxs: i128 = (self.ax as i128) * (tsx as i128);
        let oys: i128 = (self.ay as i128) * (tsy as i128);
        proof {
            lemma_abs_mul_le(oxs as int, w.den as int, 16777216, WORLD_DEN_LIMIT as int);
            lemma_abs_mul_le(oys as int, w.den as int, 16777216, WORLD_DEN_LIMIT as int);
        }
        let tx: i128 = w.xn * (self.anchor_den as i128) - oxs * w.den;
        let ty: i128 = w.yn * (self.anchor_den as i128) - oys * w.den;
        // |tx|, |ty| <= 2^60 * 2^12 + 2^24 * 2^30 < 2^73
        proof {
            lemma_abs_mul_le(tx as int, tsy as int, 9444732965739290427392, COEF_LIMIT as int);
            lemma_abs_mul_le(ty as int, tsx as int, 9444732965739290427392, COEF_LIMIT as int);
        }
        let uxn: i128 = tx * (tsy as i128);
        let uyn: i128 = ty * (tsx as i128);
        // |uxn|, |uyn| <= 2^73 * 2^12 = 2^85
        proof {
            lemma_abs_mul_le(self.m11 as int, uxn as int, COEF_LIMIT as int, 38685626227668133590597632);
            lemma_abs_mul_le(self.m01 as int, uyn as int, COEF_LIMIT as int, 38685626227668133590597632);
            lemma_abs_mul_le(self.m00 as int, uyn as int, COEF_LIMIT as int, 38685626227668133590597632);
            lemma_abs_mul_le(self.m10 as int, uxn as int, COEF_LIMIT as int, 38685626227668133590597632);
        }
        let sx: i128 = (self.m11 as i128) * uxn - (self.m01 as i128) * uyn;
        let sy: i128 = (self.m00 as i128) * uyn - (self.m10 as i128) * uxn;
        // |sx|, |sy| <= 2 * 2^12 * 2^85 = 2^98
        proof {
            lemma_abs_mul_le(
                self.mat_den as int,
                sx as int,
                COEF_LIMIT as int,
                316912650057057350374175801344,
            );
            lemma_abs_mul_le(
                self.mat_den as int,
                sy as int,
                COEF_LIMIT as int,
                316912650057057350374175801344,
            );
        }
        let raw_xn: i128 = (self.mat_den as i128) * sx;
        let raw_yn: i128 = (self.mat_den as i128) * sy;
        // |raw_xn|, |raw_yn| <= 2^12 * 2^98 = 2^110
        proof {
            lemma_abs_mul_le(w.den as int, self.anchor_den as int, WORLD_DEN_LIMIT as int, COEF_LIMIT as int);
        }
        let d1: i128 = w.den * (self.anchor_den as i128);
        proof {
            lemma_abs_mul_le(d1 as int, tsx as int, 4503599627370496, COEF_LIMIT as int);
        }
        let d2: i128 = d1 * (tsx as i128);
        proof {
            lemma_abs_mul_le(d2 as int, tsy as int, 18446744073709551616, COEF_LIMIT as int);
            lemma_abs_mul_le(self.m00 as int, self.m11 as int, COEF_LIMIT as int, COEF_LIMIT as int);
            lemma_abs_mul_le(self.m01 as int, self.m10 as int, COEF_LIMIT as int, COEF_LIMIT as int);
        }
        let den1: i128 = d2 * (tsy as i128);
        let det: i128 = (self.m00 as i128) * (self.m11 as i128) - (self.m01 as i128) * (self.m10
            as i128);
        // |den1| <= 2^30 * 2^12 * 2^12 * 2^12 = 2^66; |det| <= 2^25
        proof {
            lemma_abs_mul_le(det as int, den1 as int, 33554432, 75557863725914323419136);
            assert(den1 > 0) by (nonlinear_arith)
                requires
                    d1 == w.den * (self.anchor_den as int),
                    d2 == d1 * (tsx as int),
                    den1 == d2 * (tsy as int),
                    w.den > 0,
                    self.anchor_den >= 1,
                    tsx >= 1,
                    tsy >= 1,
            ;
            assert(det > 0 ==> det * den1 > 0) by (nonlinear_arith)
                requires
                    den1 > 0,
            ;
            assert(det < 0 ==> det * den1 < 0) by (nonlinear_arith)
                requires
                    den1 > 0,
            ;
        }
        let raw_den: i128 = det * den1;
        if det > 0 {
            Point { xn: raw_xn, yn: raw_yn, den: raw_den }
        } else {
            Point { xn: -raw_xn, yn: -raw_yn, den: -raw_den }
        }
    }
}

/// Round trip: the inverse transform exactly undoes the forward one.  For
/// every projection and every integer grid coordinate, feeding the forward
/// transform's world point back through the inverse transform yields a
/// rational pair whose value is exactly the original grid coordinate.
pub proof fn lemma_round_trip(p: Projection, tsx: int, tsy: int, gx: int, gy: int)
    requires
        p.wf(),
        tsx >= 1,
        tsy >= 1,
    ensures
        ({
            let wxn = world_xn(p, tsx, gx, gy);
            let wyn = world_yn(p, tsy, gx, gy);
            let wden = world_den(p);
            grid_den(p, tsx, tsy, wden) > 0 && grid_xn(p, tsx, tsy, wxn, wyn, wden) == gx
                * grid_den(p, tsx, tsy, wden) && grid_yn(p, tsx, tsy, wxn, wyn, wden) == gy
                * grid_den(p, tsx, tsy, wden)
        }),
{
    let a = p.m00 * gx + p.m01 * gy;
    let b = p.m10 * gx + p.m11 * gy;
    let det = det_of(p);
    let wxn = world_xn(p, tsx, gx, gy);
    let wyn = world_yn(p, tsy, gx, gy);
    let wden = world_den(p);
    let qx = a * tsx;
    let qy = b * tsy;
    let axs = p.ax * tsx;
    let ays = p.ay * tsy;
    let tx = wxn * p.anchor_den - axs * wden;
    let ty = wyn * p.anchor_den - ays * wden;
    let scale = (tsx * tsy) * (p.anchor_den * p.anchor_den);
    assert(tx == qx * (p.anchor_den * p.anchor_den)) by (nonlinear_arith)
        requires
            tx == (qx * p.anchor_den + axs * p.mat_den) * p.anchor_den - axs * (p.mat_den
                * p.anchor_den),
    ;
    assert(ty == qy * (p.anchor_den * p.anchor_den)) by (nonlinear_arith)
        requires
            ty == (qy * p.anchor_den + ays * p.mat_den) * p.anchor_den - ays * (p.mat_den
                * p.anchor_den),
    ;
    let uxn = tx * tsy;
    let uyn = ty * tsx;
    assert(uxn == a * scale) by (nonlinear_arith)
        requires
            uxn == tx * tsy,
            tx == qx * (p.anchor_den * p.anchor_den),
            qx == a * tsx,
            scale == (tsx * tsy) * (p.anchor_den * p.anchor_den),
    ;
    assert(uyn == b * scale) by (nonlinear_arith)
        requires
            uyn == ty * tsx,
            ty == qy * (p.anchor_den * p.anchor_den),
            qy == b * tsy,
            scale == (tsx * tsy) * (p.anchor_den * p.anchor_den),
    ;
    assert(p.m11 * a - p.m01 * b == det * gx) by (nonlinear_arith)
        requires
            a == p.m00 * gx + p.m01 * gy,
            b == p.m10 * gx + p.m11 * gy,
            det == p.m00 * p.m11 - p.m01 * p.m10,
    ;
    assert(p.m00 * b - p.m10 * a == det * gy) by (nonlinear_arith)
        requires
            a == p.m00 * gx + p.m01 * gy,
            b == p.m10 * gx + p.m11 * gy,
            det == p.m00 * p.m11 - p.m01 * p.m10,
    ;
    assert(p.m11 * uxn - p.m01 * uyn == (det * gx) * scale) by (nonlinear_arith)
        requires
            uxn == a * scale,
            uyn == b * scale,
            p.m11 * a - p.m01 * b == det * gx,
    ;
    assert(p.m00 * uyn - p.m10 * uxn == (det * gy) * scale) by (nonlinear_arith)
        requires
            uxn == a * scale,
            uyn == b * scale,
            p.m00 * b - p.m10 * a == det * gy,
    ;
    let rxn = grid_raw_xn(p, tsx, tsy, wxn, wyn, wden);
    let ryn = grid_raw_yn(p, tsx, tsy, wxn, wyn, wden);
    let rden = grid_raw_den(p, tsx, tsy, wden);
    let wfac = wden * p.anchor_den * tsx * tsy;
    assert(wfac == p.mat_den * scale) by (nonlinear_arith)
        requires
            wfac == wden * p.anchor_den * tsx * tsy,
            wden == p.mat_den * p.anchor_den,
            scale == (tsx * tsy) * (p.anchor_den * p.anchor_den),
    ;
    assert(rxn == gx * rden) by (nonlinear_arith)
        requires
            rxn == p.mat_den * ((det * gx) * scale),
            rden == det * (p.mat_den * scale),
    ;
    assert(ryn == gy * rden) by (nonlinear_arith)
        requires
            ryn == p.mat_den * ((det * gy) * scale),
            rden == det * (p.mat_den * scale),
    ;
    assert(det > 0 ==> rden > 0) by (nonlinear_arith)
        requires
            rden == det * (wden * p.anchor_den * tsx * tsy),
            wden == p.mat_den * p.anchor_den,
            p.mat_den >= 1,
            p.anchor_den >= 1,
            tsx >= 1,
            tsy >= 1,
    ;
    assert(det < 0 ==> rden < 0) by (nonlinear_arith)
        requires
            rden == det * (wden * p.anchor_den * tsx * tsy),
            wden == p.mat_den * p.anchor_den,
            p.mat_den >= 1,
            p.anchor_den >= 1,
            tsx >= 1,
            tsy >= 1,
    ;
    if det > 0 {
        assert(grid_xn(p, tsx, tsy, wxn, wyn, wden) == gx * grid_den(p, tsx, tsy, wden));
        assert(grid_yn(p, tsx, tsy, wxn, wyn, wden) == gy * grid_den(p, tsx, tsy, wden));
    } else {
        assert(-rxn == gx * -rden) by (nonlinear_arith)
            requires
                rxn == gx * rden,
        ;
        assert(-ryn == gy * -rden) by (nonlinear_arith)
            requires
                ryn == gy * rden,
        ;
    }
}

/// Round trip over the whole rational plane: the inverse transform undoes
/// the forward one on every fractional grid point, as rational values.
/// Feeding the forward transform's world point back through the inverse
/// transform yields exactly `(gxn / gden, gyn / gden)` again.
pub proof fn lemma_round_trip_point(p: Projection, tsx: int, tsy: int, gxn: int, gyn: int, gden: int)
    requires
        p.wf(),
        tsx >= 1,
        tsy >= 1,
        gden > 0,
    ensures
        ({
            let wxn = world_pt_xn(p, tsx, gxn, gyn, gden);
            let wyn = world_pt_yn(p, tsy, gxn, gyn, gden);
            let wden = world_pt_den(p, gden);
            grid_den(p, tsx, tsy, wden) > 0 && grid_xn(p, tsx, tsy, wxn, wyn, wden) * gden == gxn
                * grid_den(p, tsx, tsy, wden) && grid_yn(p, tsx, tsy, wxn, wyn, wden) * gden == gyn
                * grid_den(p, tsx, tsy, wden)
        }),
{
    let a = p.m00 * gxn + p.m01 * gyn;
    let b = p.m10 * gxn + p.m11 * gyn;
    let det = det_of(p);
    let mg = p.mat_den * gden;
    let wxn = world_pt_xn(p, tsx, gxn, gyn, gden);
    let wyn = world_pt_yn(p, tsy, gxn, gyn, gden);
    let wden = world_pt_den(p, gden);
    let qx = a * tsx;
    let qy = b * tsy;
    let axs = p.ax * tsx;
    let ays = p.ay * tsy;
    let tx = wxn * p.anchor_den - axs * wden;
    let ty = wyn * p.anchor_den - ays * wden;
    let scale = (tsx * tsy) * (p.anchor_den * p.anchor_den);
    assert(tx == qx * (p.anchor_den * p.anchor_den)) by (nonlinear_arith)
        requires
            tx == (qx * p.anchor_den + axs * mg) * p.anchor_den - axs * (mg * p.anchor_den),
    ;
    assert(ty == qy * (p.anchor_den * p.anchor_den)) by (nonlinear_arith)
        requires
            ty == (qy * p.anchor_den + ays * mg) * p.anchor_den - ays * (mg * p.anchor_den),
    ;
    let uxn = tx * tsy;
    let uyn = ty * tsx;
    assert(uxn == a * scale) by (nonlinear_arith)
        requires
            uxn == tx * tsy,
            tx == qx * (p.anchor_den * p.anchor_den),
            qx == a * tsx,
            scale == (tsx * tsy) * (p.anchor_den * p.anchor_den),
    ;
    assert(uyn == b * scale) by (nonlinear_arith)
        requires
            uyn == ty * tsx,
            ty == qy * (p.anchor_den * p.anchor_den),
            qy == b * tsy,
            scale == (tsx * tsy) * (p.anchor_den * p.anchor_den),
    ;
    assert(p.m11 * a - p.m01 * b == det * gxn) by (nonlinear_arith)
        requires
            a == p.m00 * gxn + p.m01 * gyn,
            b == p.m10 * gxn + p.m11 * gyn,
            det == p.m00 * p.m11 - p.m01 * p.m10,
    ;
    assert(p.m00 * b - p.m10 * a == det * gyn) by (nonlinear_arith)
        requires
            a == p.m00 * gxn + p.m01 * gyn,
            b == p.m10 * gxn + p.m11 * gyn,
            det == p.m00 * p.m11 - p.m01 * p.m10,
    ;
    assert(p.m11 * uxn - p.m01 * uyn == (det * gxn) * scale) by (nonlinear_arith)
        requires
            uxn == a * scale,
            uyn == b * scale,
            p.m11 * a - p.m01 * b == det * gxn,
    ;
    assert(p.m00 * uyn - p.m10 * uxn == (det * gyn) * scale) by (nonlinear_arith)
        requires
            uxn == a * scale,
            uyn == b * scale,
            p.m00 * b - p.m10 * a == det * gyn,
    ;
    let rxn = grid_raw_xn(p, tsx, tsy, wxn, wyn, wden);
    let ryn = grid_raw_yn(p, tsx, tsy, wxn, wyn, wden);
    let rden = grid_raw_den(p, tsx, tsy, wden);
    let wfac = wden * p.anchor_den * tsx * tsy;
    assert(wfac == mg * scale) by (nonlinear_arith)
        requires
            wfac == wden * p.anchor_den * tsx * tsy,
            wden == mg * p.anchor_den,
            scale == (tsx * tsy) * (p.anchor_den * p.anchor_den),
    ;
    assert(rxn * gden == gxn * rden) by (nonlinear_arith)
        requires
            rxn == p.mat_den * ((det * gxn) * scale),
            rden == det * (mg * scale),
            mg == p.mat_den * gden,
    ;
    assert(ryn * gden == gyn * rden) by (nonlinear_arith)
        requires
            ryn == p.mat_den * ((det * gyn) * scale),
            rden == det * (mg * scale),
            mg == p.mat_den * gden,
    ;
    assert(det > 0 ==> rden > 0) by (nonlinear_arith)
        requires
            rden == det * (mg * scale),
            mg == p.mat_den * gden,
            p.mat_den >= 1,
            gden >= 1,
            p.anchor_den >= 1,
            tsx >= 1,
            tsy >= 1,
            scale == (tsx * tsy) * (p.anchor_den * p.anchor_den),
    ;
    assert(det < 0 ==> rden < 0) by (nonlinear_arith)
        requires
            rden == det * (mg * scale),
            mg == p.mat_den * gden,
            p.mat_den >= 1,
            gden >= 1,
            p.anchor_den >= 1,
            tsx >= 1,
            tsy >= 1,
            scale == (tsx * tsy) * (p.anchor_den * p.anchor_den),
    ;
    if det > 0 {
        assert(grid_xn(p, tsx, tsy, wxn, wyn, wden) * gden == gxn * grid_den(p, tsx, tsy, wden));
        assert(grid_yn(p, tsx, tsy, wxn, wyn, wden) * gden == gyn * grid_den(p, tsx, tsy, wden));
    } else {
        assert((-rxn) * gden == gxn * (-rden)) by (nonlinear_arith)
            requires
                rxn * gden == gxn * rden,
        ;
        assert((-ryn) * gden == gyn * (-rden)) by (nonlinear_arith)
            requires
                ryn * gden == gyn * rden,
        ;
    }
}

} // verus!
