//! The map uniform model: the compact derived-parameter record the
//! rendering boundary consumes.
//!
//! It combines map size, tile size and projection, all known at
//! construction, with the atlas pixel size, known only once the atlas asset
//! has loaded.  `resolve` checks the atlas-divisibility invariant and
//! derives the inverse projection and the world size; the derived fields
//! are a pure function of the inputs, so resolving again with the same
//! atlas size yields identical values ([`lemma_resolve_idempotent`]).
//! Before resolution the derived accessors fail loudly with `NotReady`.

use vstd::prelude::*;
use crate::frac::{lemma_abs_mul_le, Point};
use crate::projection::{
    det_of, grid_den, grid_xn, grid_yn, world_den, world_pt_den, world_pt_xn, world_pt_yn,
    world_xn, world_yn, Projection, COEF_LIMIT, GRIDPT_DEN_LIMIT, GRIDPT_NUM_LIMIT,
    GRID_DEN_LIMIT, GRID_LIMIT, GRID_NUM_LIMIT, WORLD_DEN_LIMIT, WORLD_NUM_LIMIT,
};
use crate::MapError;

verus! {

/// The inverse of a projection matrix: entries `n_ij / den` with `den > 0`.
#[derive(Clone, Copy, Debug, PartialEq, Eq, Structural)]
pub struct InverseProjection {
    pub n00: i64,
    pub n01: i64,
    pub n10: i64,
    pub n11: i64,
    pub den: i64,
}

/// Entry `(0,0)` of the inverse matrix of `p`, normalized to a positive
/// denominator [`inv_den`].
pub open spec fn inv_n00(p: Projection) -> int {
    if det_of(p) > 0 {
        p.m11 * p.mat_den
    } else {
        -(p.m11 * p.mat_den)
    }
}

/// Entry `(0,1)` of the inverse matrix of `p`.
pub open spec fn inv_n01(p: Projection) -> int {
    if det_of(p) > 0 {
        -(p.m01 * p.mat_den)
    } else {
        p.m01 * p.mat_den
    }
}

/// Entry `(1,0)` of the inverse matrix of `p`.
pub open spec fn inv_n10(p: Projection) -> int {
    if det_of(p) > 0 {
        -(p.m10 * p.mat_den)
    } else {
        p.m10 * p.mat_den
    }
}

/// Entry `(1,1)` of the inverse matrix of `p`.
pub open spec fn inv_n11(p: Projection) -> int {
    if det_of(p) > 0 {
        p.m00 * p.mat_den
    } else {
        -(p.m00 * p.mat_den)
    }
}

/// Positive denominator of the inverse matrix of `p`: the magnitude of the
/// determinant.
pub open spec fn inv_den(p: Projection) -> int {
    if det_of(p) > 0 {
        det_of(p)
    } else {
        -det_of(p)
    }
}

/// Numerator of the world-space width of a `mw x mh` map with tile width
/// `tsx`, over the denominator `p.mat_den`: the width of the bounding box
/// of the grid rectangle `[0, mw] x [0, mh]` under the forward matrix,
/// scaled by the tile size.  Each grid axis can extend the box to either
/// side, so the extent of a row is the sum of the absolute entries.
pub open spec fn world_size_xn(p: Projection, mw: int, mh: int, tsx: int) -> int {
    let a = if p.m00 >= 0 {
        p.m00 as int
    } else {
        -(p.m00 as int)
    };
    let b = if p.m01 >= 0 {
        p.m01 as int
    } else {
        -(p.m01 as int)
    };
    (a * mw + b * mh) * tsx
}

/// Numerator of the world-space height of a `mw x mh` map with tile height
/// `tsy`, over the denominator `p.mat_den`.
pub open spec fn world_size_yn(p: Projection, mw: int, mh: int, tsy: int) -> int {
    let a = if p.m10 >= 0 {
        p.m10 as int
    } else {
        -(p.m10 as int)
    };
    let b = if p.m11 >= 0 {
        p.m11 as int
    } else {
        -(p.m11 as int)
    };
    (a * mw + b * mh) * tsy
}

/// The fields derived at resolution time, valid only once the atlas pixel
/// size is known.
#[derive(Clone, Copy, Debug, PartialEq, Eq, Structural)]
pub struct Derived {
    /// Atlas width in pixels, as reported by the asset loader.
    pub atlas_w: u32,
    /// Atlas height in pixels.
    pub atlas_h: u32,
    /// The inverse projection matrix.
    pub inv: InverseProjection,
    /// World-space bounding box of the whole map; `den` is the projection's
    /// matrix denominator.
    pub world_size: Point,
}

/// The derived-parameter record of one map.
pub struct MapUniform {
    /// Grid width in tiles.
    pub map_w: u32,
    /// Grid height in tiles.
    pub map_h: u32,
    /// Tile footprint width in atlas pixels, also its world-space width.
    pub tile_w: i64,
    /// Tile footprint height in atlas pixels, also its world-space height.
    pub tile_h: i64,
    /// The grid-to-world projection.
    pub proj: Projection,
    /// `None` while the atlas asset is unresolved; the derived fields once
    /// it is resolved.
    pub derived: Option<Derived>,
}

/// `d` holds exactly the fields that resolving `u` at atlas size
/// `(aw, ah)` derives.
pub open spec fn derived_for(u: MapUniform, aw: int, ah: int, d: Derived) -> bool {
    &&& d.atlas_w == aw
    &&& d.atlas_h == ah
    &&& d.inv.n00 == inv_n00(u.proj)
    &&& d.inv.n01 == inv_n01(u.proj)
    &&& d.inv.n10 == inv_n10(u.proj)
    &&& d.inv.n11 == inv_n11(u.proj)
    &&& d.inv.den == inv_den(u.proj)
    &&& d.world_size.xn == world_size_xn(u.proj, u.map_w as int, u.map_h as int, u.tile_w as int)
    &&& d.world_size.yn == world_size_yn(u.proj, u.map_w as int, u.map_h as int, u.tile_h as int)
    &&& d.world_size.den == u.proj.mat_den
}

impl MapUniform {
    /// The atlas pixel size is an integer multiple of the tile footprint.
    pub open spec fn divisible(self, aw: int, ah: int) -> bool {
        aw % (self.tile_w as int) == 0 && ah % (self.tile_h as int) == 0
    }

    /// The representation invariant: inputs in range, a well-formed
    /// projection, and derived fields (when present) that match the inputs
    /// and a divisible atlas.
    pub open spec fn wf(self) -> bool {
        &&& 1 <= self.map_w <= GRID_LIMIT
        &&& 1 <= self.map_h <= GRID_LIMIT
        &&& 1 <= self.tile_w <= COEF_LIMIT
        &&& 1 <= self.tile_h <= COEF_LIMIT
        &&& self.proj.wf()
        &&& match self.derived {
            None => true,
            Some(d) => derived_for(self, d.atlas_w as int, d.atlas_h as int, d) && self.divisible(
                d.atlas_w as int,
                d.atlas_h as int,
            ),
        }
    }

    /// Builds a model in the unresolved state: atlas size, world size and
    /// inverse projection are not yet available.
    pub fn new(map_w: u32, map_h: u32, tile_w: i64, tile_h: i64, proj: Projection) -> (r:
        MapUniform)
        requires
            1 <= map_w <= GRID_LIMIT,
            1 <= map_h <= GRID_LIMIT,
            1 <= tile_w <= COEF_LIMIT,
            1 <= tile_h <= COEF_LIMIT,
            proj.wf(),
        ensures
            r == (MapUniform { map_w, map_h, tile_w, tile_h, proj, derived: None::<Derived> }),
            r.wf(),
    {
        MapUniform { map_w, map_h, tile_w, tile_h, proj, derived: None }
    }

    /// Whether the atlas has been resolved and the derived fields are
    /// available.
    pub fn is_resolved(&self) -> (r: bool)
        ensures
            r == self.derived is Some,
    {
        self.derived.is_some()
    }

    /// Derives world size and inverse projection from the atlas pixel size,
    /// transitioning to the resolved state.  Fails with `AtlasNotDivisible`,
    /// leaving the model unchanged, exactly when the atlas size is not an
    /// integer multiple of the tile footprint.  A resolved model keeps its
    /// first resolution: resolving again at the same atlas size succeeds
    /// and changes nothing (the derived fields are a pure function of the
    /// inputs), while a different atlas size is an unsupported hot-swap and
    /// is rejected.
    pub fn resolve(&mut self, atlas_w: u32, atlas_h: u32) -> (r: Result<(), MapError>)
        requires
            old(self).wf(),
        ensures
            final(self).wf(),
            final(self).map_w == old(self).map_w,
            final(self).map_h == old(self).map_h,
            final(self).tile_w == old(self).tile_w,
            final(self).tile_h == old(self).tile_h,
            final(self).proj == old(self).proj,
            match old(self).derived {
                None => match r {
                    Ok(()) => {
                        &&& old(self).divisible(atlas_w as int, atlas_h as int)
                        &&& final(self).derived matches Some(d) && derived_for(
                            *old(self),
                            atlas_w as int,
                            atlas_h as int,
                            d,
                        )
                    },
                    Err(e) => {
                        &&& !old(self).divisible(atlas_w as int, atlas_h as int)
                        &&& e == MapError::AtlasNotDivisible
                        &&& *final(self) == *old(self)
                    },
                },
                Some(d0) => {
                    &&& *final(self) == *old(self)
                    &&& r == if atlas_w == d0.atlas_w && atlas_h == d0.atlas_h {
                        Ok::<(), MapError>(())
                    } else {
                        Err::<(), MapError>(MapError::AtlasChangeUnsupported)
                    }
                },
            },
    {
        match &self.derived {
            Some(d0) => {
                return if atlas_w == d0.atlas_w && atlas_h == d0.atlas_h {
                    Ok(())
                } else {
                    Err(MapError::AtlasChangeUnsupported)
                };
            },
            None => {},
        }
        let rem_w: u64 = (atlas_w as u64) % (self.tile_w as u64);
        let rem_h: u64 = (atlas_h as u64) % (self.tile_h as u64);
        if rem_w != 0 || rem_h != 0 {
            return Err(MapError::AtlasNotDivisible);
        }
        let p = self.proj;
        proof {
            lemma_abs_mul_le(p.m00 as int, p.m11 as int, COEF_LIMIT as int, COEF_LIMIT as int);
            lemma_abs_mul_le(p.m01 as int, p.m10 as int, COEF_LIMIT as int, COEF_LIMIT as int);
            lemma_abs_mul_le(p.m00 as int, p.mat_den as int, COEF_LIMIT as int, COEF_LIMIT as int);
            lemma_abs_mul_le(p.m01 as int, p.mat_den as int, COEF_LIMIT as int, COEF_LIMIT as int);
            lemma_abs_mul_le(p.m10 as int, p.mat_den as int, COEF_LIMIT as int, COEF_LIMIT as int);
            lemma_abs_mul_le(p.m11 as int, p.mat_den as int, COEF_LIMIT as int, COEF_LIMIT as int);
        }
        let det: i64 = p.m00 * p.m11 - p.m01 * p.m10;
        let inv = if det > 0 {
            InverseProjection {
                n00: p.m11 * p.mat_den,
                n01: -(p.m01 * p.mat_den),
                n10: -(p.m10 * p.mat_den),
                n11: p.m00 * p.mat_den,
                den: det,
            }
        } else {
            InverseProjection {
                n00: -(p.m11 * p.mat_den),
                n01: p.m01 * p.mat_den,
                n10: p.m10 * p.mat_den,
                n11: -(p.m00 * p.mat_den),
                den: -det,
            }
        };
        let a00: i64 = if p.m00 >= 0 {
            p.m00
        } else {
            -p.m00
        };
        let a01: i64 = if p.m01 >= 0 {
            p.m01
        } else {
            -p.m01
        };
        let a10: i64 = if p.m10 >= 0 {
            p.m10
        } else {
            -p.m10
        };
        let a11: i64 = if p.m11 >= 0 {
            p.m11
        } else {
            -p.m11
        };
        proof {
            lemma_abs_mul_le(a00 as int, self.map_w as int, COEF_LIMIT as int, GRID_LIMIT as int);
            lemma_abs_mul_le(a01 as int, self.map_h as int, COEF_LIMIT as int, GRID_LIMIT as int);
            lemma_abs_mul_le(a10 as int, self.map_w as int, COEF_LIMIT as int, GRID_LIMIT as int);
            lemma_abs_mul_le(a11 as int, self.map_h as int, COEF_LIMIT as int, GRID_LIMIT as int);
        }
        let sx: i64 = a00 * (self.map_w as i64) + a01 * (self.map_h as i64);
        let sy: i64 = a10 * (self.map_w as i64) + a11 * (self.map_h as i64);
        proof {
            lemma_abs_mul_le(sx as int, self.tile_w as int, 8589934592, COEF_LIMIT as int);
            lemma_abs_mul_le(sy as int, self.tile_h as int, 8589934592, COEF_LIMIT as int);
        }
        let world_size = Point {
            xn: (sx as i128) * (self.tile_w as i128),
            yn: (sy as i128) * (self.tile_h as i128),
            den: p.mat_den as i128,
        };
        self.derived = Some(Derived { atlas_w, atlas_h, inv, world_size });
        Ok(())
    }

    /// The world-space bounding box of the map, as a rational pair over the
    /// matrix denominator.  Fails with `NotReady` exactly while the atlas is
    /// unresolved.
    pub fn world_size(&self) -> (r: Result<Point, MapError>)
        ensures
            match r {
                Ok(p) => self.derived matches Some(d) && p == d.world_size,
                Err(e) => self.derived is None && e == MapError::NotReady,
            },
    {
        match &self.derived {
            Some(d) => Ok(d.world_size),
            None => Err(MapError::NotReady),
        }
    }

    /// The inverse projection matrix.  Fails with `NotReady` exactly while
    /// the atlas is unresolved.
    pub fn inverse_projection(&self) -> (r: Result<InverseProjection, MapError>)
        ensures
            match r {
                Ok(m) => self.derived matches Some(d) && m == d.inv,
                Err(e) => self.derived is None && e == MapError::NotReady,
            },
    {
        match &self.derived {
            Some(d) => Ok(d.inv),
            None => Err(MapError::NotReady),
        }
    }

    /// The atlas pixel size.  Fails with `NotReady` exactly while the atlas
    /// is unresolved.
    pub fn atlas_size(&self) -> (r: Result<(u32, u32), MapError>)
        ensures
            match r {
                Ok(s) => self.derived matches Some(d) && s.0 == d.atlas_w && s.1 == d.atlas_h,
                Err(e) => self.derived is None && e == MapError::NotReady,
            },
    {
        match &self.derived {
            Some(d) => Ok((d.atlas_w, d.atlas_h)),
            None => Err(MapError::NotReady),
        }
    }

    /// Forward transform of a grid coordinate using this map's projection
    /// and tile size; pure and available in both states.
    pub fn to_world(&self, gx: i64, gy: i64) -> (r: Point)
        requires
            self.wf(),
            -GRID_LIMIT <= gx <= GRID_LIMIT,
            -GRID_LIMIT <= gy <= GRID_LIMIT,
        ensures
            r.xn == world_xn(self.proj, self.tile_w as int, gx as int, gy as int),
            r.yn == world_yn(self.proj, self.tile_h as int, gx as int, gy as int),
            r.den == world_den(self.proj),
            r.wf(),
            r.bounded(WORLD_NUM_LIMIT as int, WORLD_DEN_LIMIT as int),
    {
        self.proj.to_world(gx, gy, self.tile_w, self.tile_h)
    }

    /// Forward transform of a fractional grid point using this map's
    /// projection and tile size; pure and available in both states.
    pub fn to_world_point(&self, g: &Point) -> (r: Point)
        requires
            self.wf(),
            g.wf(),
            g.bounded(GRIDPT_NUM_LIMIT as int, GRIDPT_DEN_LIMIT as int),
        ensures
            r.xn == world_pt_xn(self.proj, self.tile_w as int, g.xn as int, g.yn as int, g.den as int),
            r.yn == world_pt_yn(self.proj, self.tile_h as int, g.xn as int, g.yn as int, g.den as int),
            r.den == world_pt_den(self.proj, g.den as int),
            r.wf(),
            r.bounded(WORLD_NUM_LIMIT as int, WORLD_DEN_LIMIT as int),
    {
        self.proj.to_world_point(g, self.tile_w, self.tile_h)
    }

    /// Inverse transform of a world point using this map's projection and
    /// tile size; pure and available in both states.
    pub fn to_grid(&self, w: &Point) -> (r: Point)
        requires
            self.wf(),
            w.wf(),
            w.bounded(WORLD_NUM_LIMIT as int, WORLD_DEN_LIMIT as int),
        ensures
            r.xn == grid_xn(
                self.proj,
                self.tile_w as int,
                self.tile_h as int,
                w.xn as int,
                w.yn as int,
                w.den as int,
            ),
            r.yn == grid_yn(
                self.proj,
                self.tile_w as int,
                self.tile_h as int,
                w.xn as int,
                w.yn as int,
                w.den as int,
            ),
            r.den == grid_den(self.proj, self.tile_w as int, self.tile_h as int, w.den as int),
            r.wf(),
            r.bounded(GRID_NUM_LIMIT as int, GRID_DEN_LIMIT as int),
    {
        self.proj.to_grid(w, self.tile_w, self.tile_h)
    }
}

/// Resolution is idempotent: any two resolutions of models with the same
/// inputs, at the same atlas size, derive identical fields.
pub proof fn lemma_resolve_idempotent(
    u1: MapUniform,
    u2: MapUniform,
    d1: Derived,
    d2: Derived,
    aw: int,
    ah: int,
)
    requires
        u1.map_w == u2.map_w,
        u1.map_h == u2.map_h,
        u1.tile_w == u2.tile_w,
        u1.tile_h == u2.tile_h,
        u1.proj == u2.proj,
        derived_for(u1, aw, ah, d1),
        derived_for(u2, aw, ah, d2),
    ensures
        d1 == d2,
{
}

} // verus!
