//! The overlap resolution policy: which tile wins when a pixel's draw
//! region is covered by several grid cells.
//!
//! Two mutually exclusive modes exist per map.  Dominance picks, among the
//! covering cells, the one with the highest priority, resolving ties in
//! favor of the later index.  Perspective computes which tile footprint
//! owns the pixel from the inverse projection alone: the owning cell is the
//! floor of the fractional grid coordinate, so every pixel — including one
//! on an exact shared edge — resolves deterministically to exactly one
//! tile.  Both are pure functions, usable identically by the GPU resolution
//! pass and by CPU-side hit-testing.

use vstd::prelude::*;
use vstd::arithmetic::div_mod::{
    lemma_fundamental_div_mod, lemma_fundamental_div_mod_converse, lemma_mod_bound,
};
use crate::frac::{floor_div, Point};
use crate::projection::{
    grid_den, grid_xn, grid_yn, lemma_round_trip, world_den, world_xn, world_yn, Projection,
    COEF_LIMIT, WORLD_DEN_LIMIT, WORLD_NUM_LIMIT,
};

verus! {

/// How overlapping tile footprints are resolved for one map.
#[derive(Clone, Copy, Debug, PartialEq, Eq, Structural)]
pub enum OverlapPolicy {
    /// Strict paint order: the covering cell with the highest priority
    /// wins; ties go to the later index.
    Dominance,
    /// Geometric ownership: the inverse projection assigns each pixel to
    /// exactly one diamond footprint.
    Perspective,
}

/// Dominance mode: picks the winner among the cells covering a pixel,
/// given their priorities in paint order.  Returns `None` exactly when no
/// cell covers the pixel; otherwise the winning entry has the highest
/// priority and, among entries of that priority, the highest index.
pub fn dominant_index(priorities: &Vec<u64>) -> (r: Option<usize>)
    ensures
        match r {
            None => priorities@.len() == 0,
            Some(i) => {
                &&& 0 <= i < priorities@.len()
                &&& forall|j: int| 0 <= j < priorities@.len() ==> priorities@[j] <= priorities@[i as int]
                &&& forall|j: int|
                    i < j < priorities@.len() ==> priorities@[j] < priorities@[i as int]
            },
        },
{
    if priorities.len() == 0 {
        return None;
    }
    let mut best: usize = 0;
    let mut k: usize = 1;
    while k < priorities.len()
        invariant
            1 <= k <= priorities@.len(),
            0 <= best < k,
            forall|j: int| 0 <= j < k ==> priorities@[j] <= priorities@[best as int],
            forall|j: int| best < j < k ==> priorities@[j] < priorities@[best as int],
        decreases priorities@.len() - k,
    {
        if priorities[k] >= priorities[best] {
            best = k;
        }
        k = k + 1;
    }
    Some(best)
}

/// Decodes a stored cell value under the sentinel convention: `0` is "no
/// tile / background" and yields `None`; a value `v >= 1` addresses atlas
/// cell `v - 1`, in row-major order.
pub fn atlas_cell_of(v: u16) -> (r: Option<u16>)
    ensures
        match r {
            None => v == 0,
            Some(c) => v >= 1 && c == v - 1,
        },
{
    if v == 0 {
        None
    } else {
        Some(v - 1)
    }
}

/// Perspective mode: the integer grid cell that owns the world point `w`,
/// namely the floor of the fractional grid coordinate under the inverse
/// projection.  A pure function of projection, tile size and pixel
/// position, so repeated evaluation of the same pixel is stable and each
/// pixel has exactly one owner.
pub fn perspective_owner(p: &Projection, w: &Point, tsx: i64, tsy: i64) -> (r: (i128, i128))
    requires
        p.wf(),
        w.wf(),
        w.bounded(WORLD_NUM_LIMIT as int, WORLD_DEN_LIMIT as int),
        1 <= tsx <= COEF_LIMIT,
        1 <= tsy <= COEF_LIMIT,
    ensures
        ({
            let gxn = grid_xn(*p, tsx as int, tsy as int, w.xn as int, w.yn as int, w.den as int);
            let gyn = grid_yn(*p, tsx as int, tsy as int, w.xn as int, w.yn as int, w.den as int);
            let gden = grid_den(*p, tsx as int, tsy as int, w.den as int);
            r.0 == gxn / gden && r.1 == gyn / gden
        }),
{
    let g = p.to_grid(w, tsx, tsy);
    (floor_div(g.xn, g.den), floor_div(g.yn, g.den))
}

/// Perspective ownership is exclusive and exhaustive: the fractional grid
/// coordinate `n / d` lies in the half-open unit interval of exactly one
/// integer cell, its floor.  So a pixel on an exact shared footprint edge
/// belongs to the cell whose interval starts there — one owner, never two,
/// never none.
pub proof fn lemma_owner_interval(n: int, d: int, c: int)
    requires
        d > 0,
    ensures
        (c == n / d) <==> (c * d <= n < (c + 1) * d),
{
    lemma_fundamental_div_mod(n, d);
    lemma_mod_bound(n, d);
    if c == n / d {
        assert(c * d <= n < (c + 1) * d) by (nonlinear_arith)
            requires
                n == d * c + n % d,
                0 <= n % d < d,
        ;
    }
    if c * d <= n < (c + 1) * d {
        assert(n == d * c + (n - c * d) && 0 <= n - c * d < d) by (nonlinear_arith)
            requires
                c * d <= n < (c + 1) * d,
                d > 0,
        ;
        lemma_fundamental_div_mod_converse(n, d, c, n - c * d);
    }
}

/// Ownership round trip: the cell that owns a tile's own world anchor
/// point is exactly that tile.  Composes the projection round trip with
/// the floor-based ownership rule.
pub proof fn lemma_cell_round_trip(p: Projection, tsx: int, tsy: int, gx: int, gy: int)
    requires
        p.wf(),
        tsx >= 1,
        tsy >= 1,
    ensures
        ({
            let wxn = world_xn(p, tsx, gx, gy);
            let wyn = world_yn(p, tsy, gx, gy);
            let wden = world_den(p);
            grid_xn(p, tsx, tsy, wxn, wyn, wden) / grid_den(p, tsx, tsy, wden) == gx && grid_yn(
                p,
                tsx,
                tsy,
                wxn,
                wyn,
                wden,
            ) / grid_den(p, tsx, tsy, wden) == gy
        }),
{
    lemma_round_trip(p, tsx, tsy, gx, gy);
    let wxn = world_xn(p, tsx, gx, gy);
    let wyn = world_yn(p, tsy, gx, gy);
    let wden = world_den(p);
    let gden = grid_den(p, tsx, tsy, wden);
    assert(grid_xn(p, tsx, tsy, wxn, wyn, wden) == gden * gx + 0) by (nonlinear_arith)
        requires
            grid_xn(p, tsx, tsy, wxn, wyn, wden) == gx * gden,
    ;
    assert(grid_yn(p, tsx, tsy, wxn, wyn, wden) == gden * gy + 0) by (nonlinear_arith)
        requires
            grid_yn(p, tsx, tsy, wxn, wyn, wden) == gy * gden,
    ;
    lemma_fundamental_div_mod_converse(grid_xn(p, tsx, tsy, wxn, wyn, wden), gden, gx, 0);
    lemma_fundamental_div_mod_converse(grid_yn(p, tsx, tsy, wxn, wyn, wden), gden, gy, 0);
}

} // verus!
