//! The map aggregate and its asset-loading state machine.
//!
//! A map owns one tile index store and one map uniform model, and holds a
//! reference to the shared atlas asset.  The atlas texture loads
//! asynchronously in the host: each update tick the caller polls the loader
//! and hands the result to [`TileMap::update`].  While the pixel size is
//! unknown the map is `Unresolved` and every geometry-dependent operation
//! fails with `NotReady`; once the size arrives, the uniform model resolves
//! and the index store is sized and allocated, and the map is `Resolved`.
//! Re-entering `Unresolved` is not supported: an atlas hot-swap needs a
//! fresh map.

use vstd::prelude::*;
use crate::frac::Point;
use crate::overlap::{perspective_owner, OverlapPolicy};
use crate::projection::{
    grid_den, grid_xn, grid_yn, world_den, world_pt_den, world_pt_xn, world_pt_yn, world_xn,
    world_yn, Projection, COEF_LIMIT, GRIDPT_DEN_LIMIT, GRIDPT_NUM_LIMIT, GRID_DEN_LIMIT,
    GRID_LIMIT, GRID_NUM_LIMIT, WORLD_DEN_LIMIT, WORLD_NUM_LIMIT,
};
use crate::store::TileIndexStore;
use crate::uniform::{derived_for, InverseProjection, MapUniform};
use crate::MapError;

verus! {

/// An opaque reference to an atlas texture asset owned by the host's asset
/// system; many maps may share one atlas.
#[derive(Clone, Copy, Debug, Hash, PartialEq, Eq, Structural)]
pub struct AtlasHandle {
    pub id: u64,
}

/// The two states of map geometry readiness.
#[derive(Clone, Copy, Debug, PartialEq, Eq, Structural)]
pub enum LoadState {
    /// The atlas asset is requested but its pixel size is not yet known.
    Unresolved,
    /// Geometry is derived and the index store is allocated.
    Resolved,
}

/// One tile map: a uniform model, an index store once resolved, the atlas
/// reference, and the overlap policy of its per-pixel resolution.
pub struct TileMap {
    /// The derived-parameter record.
    pub uniform: MapUniform,
    /// The packed index grid; allocated at first successful resolution.
    pub store: Option<TileIndexStore>,
    /// The shared atlas texture asset this map samples from.
    pub atlas: AtlasHandle,
    /// How overlapping tile footprints are resolved.
    pub policy: OverlapPolicy,
}

impl TileMap {
    /// The representation invariant: a well-formed uniform model, a store
    /// that exists exactly in the resolved state and matches the map size,
    /// and a grid small enough to allocate two bytes per cell.
    pub open spec fn wf(self) -> bool {
        &&& self.uniform.wf()
        &&& 2 * self.uniform.map_w * self.uniform.map_h <= usize::MAX
        &&& match self.store {
            None => self.uniform.derived is None,
            Some(s) => {
                &&& self.uniform.derived is Some
                &&& s.wf()
                &&& s.width == self.uniform.map_w
                &&& s.height == self.uniform.map_h
            },
        }
    }

    /// Whether the map has reached the resolved state.
    pub open spec fn is_resolved(self) -> bool {
        self.uniform.derived is Some
    }

    /// Builds a map in the unresolved state: no store, no derived geometry.
    pub fn new(
        map_w: u32,
        map_h: u32,
        tile_w: i64,
        tile_h: i64,
        atlas: AtlasHandle,
        proj: Projection,
        policy: OverlapPolicy,
    ) -> (r: TileMap)
        requires
            1 <= map_w <= GRID_LIMIT,
            1 <= map_h <= GRID_LIMIT,
            2 * map_w * map_h <= usize::MAX,
            1 <= tile_w <= COEF_LIMIT,
            1 <= tile_h <= COEF_LIMIT,
            proj.wf(),
        ensures
            r.wf(),
            !r.is_resolved(),
            r.uniform.map_w == map_w,
            r.uniform.map_h == map_h,
            r.uniform.tile_w == tile_w,
            r.uniform.tile_h == tile_h,
            r.uniform.proj == proj,
            r.atlas == atlas,
            r.policy == policy,
    {
        TileMap { uniform: MapUniform::new(map_w, map_h, tile_w, tile_h, proj), store: None, atlas, policy }
    }

    /// The readiness query the caller polls each update tick.
    pub fn load_state(&self) -> (r: LoadState)
        ensures
            r == if self.is_resolved() {
                LoadState::Resolved
            } else {
                LoadState::Unresolved
            },
    {
        if self.uniform.is_resolved() {
            LoadState::Resolved
        } else {
            LoadState::Unresolved
        }
    }

    /// One tick of the asset-loading state machine.  `atlas_size` is the
    /// loader's answer to "is the atlas loaded, and at what pixel size":
    /// `None` keeps the map unresolved and returns `Ok(false)`; a size
    /// resolves the geometry and allocates the zero-filled index store,
    /// returning `Ok(true)`, or fails with `AtlasNotDivisible` leaving the
    /// map unchanged.  A resolved map stays resolved and ignores further
    /// answers.
    pub fn update(&mut self, atlas_size: Option<(u32, u32)>) -> (r: Result<bool, MapError>)
        requires
            old(self).wf(),
        ensures
            final(self).wf(),
            final(self).atlas == old(self).atlas,
            final(self).policy == old(self).policy,
            final(self).uniform.map_w == old(self).uniform.map_w,
            final(self).uniform.map_h == old(self).uniform.map_h,
            final(self).uniform.tile_w == old(self).uniform.tile_w,
            final(self).uniform.tile_h == old(self).uniform.tile_h,
            final(self).uniform.proj == old(self).uniform.proj,
            old(self).is_resolved() ==> r == Ok::<bool, MapError>(true) && *final(self) == *old(
                self,
            ),
            !old(self).is_resolved() && atlas_size is None ==> r == Ok::<bool, MapError>(false)
                && *final(self) == *old(self),
            match atlas_size {
                None => true,
                Some(sz) => !old(self).is_resolved() ==> match r {
                Ok(b) => {
                    &&& b == true
                    &&& old(self).uniform.divisible(sz.0 as int, sz.1 as int)
                    &&& final(self).is_resolved()
                    &&& final(self).uniform.derived matches Some(d) && derived_for(
                        old(self).uniform,
                        sz.0 as int,
                        sz.1 as int,
                        d,
                    )
                    &&& final(self).store matches Some(s) && forall|x: int, y: int|
                        s.in_bounds(x, y) ==> s.cell(x, y) == 0
                },
                Err(e) => {
                    &&& e == MapError::AtlasNotDivisible
                    &&& !old(self).uniform.divisible(sz.0 as int, sz.1 as int)
                    &&& *final(self) == *old(self)
                },
                },
            },
    {
        if self.uniform.is_resolved() {
            return Ok(true);
        }
        match atlas_size {
            None => Ok(false),
            Some((aw, ah)) => {
                match self.uniform.resolve(aw, ah) {
                    Err(e) => Err(e),
                    Ok(()) => {
                        self.store = Some(
                            TileIndexStore::new(self.uniform.map_w, self.uniform.map_h),
                        );
                        Ok(true)
                    },
                }
            },
        }
    }

    /// The map size `(width, height)` in tiles; known in both states.
    pub fn size(&self) -> (r: (u32, u32))
        ensures
            r.0 == self.uniform.map_w,
            r.1 == self.uniform.map_h,
    {
        (self.uniform.map_w, self.uniform.map_h)
    }

    /// Reads tile index `(x, y)` through the bounds-checked indexer.
    /// Fails with `NotReady` while unresolved, with `IndexOutOfBounds` for
    /// a coordinate outside the map.
    pub fn get(&self, x: u32, y: u32) -> (r: Result<u16, MapError>)
        requires
            self.wf(),
        ensures
            match r {
                Ok(v) => self.store matches Some(s) && s.in_bounds(x as int, y as int) && v
                    == s.cell(x as int, y as int),
                Err(e) => if self.is_resolved() {
                    e == MapError::IndexOutOfBounds && (self.store matches Some(s) && !s.in_bounds(
                        x as int,
                        y as int,
                    ))
                } else {
                    e == MapError::NotReady
                },
            },
    {
        match &self.store {
            None => Err(MapError::NotReady),
            Some(s) => s.get(x, y),
        }
    }

    /// Writes tile index `(x, y)` through the bounds-checked indexer,
    /// leaving every other cell unchanged.  Fails with `NotReady` while
    /// unresolved, with `IndexOutOfBounds` for a coordinate outside the
    /// map; a failed write does not touch the map.
    pub fn set(&mut self, x: u32, y: u32, v: u16) -> (r: Result<(), MapError>)
        requires
            old(self).wf(),
        ensures
            final(self).wf(),
            final(self).uniform == old(self).uniform,
            final(self).atlas == old(self).atlas,
            final(self).policy == old(self).policy,
            match r {
                Ok(()) => {
                    &&& old(self).store matches Some(s0) && s0.in_bounds(x as int, y as int)
                    &&& final(self).store matches Some(s) && (old(self).store matches Some(s0)
                        ==> s.cell(x as int, y as int) == v && forall|x2: int, y2: int|
                        s.in_bounds(x2, y2) && (x2 != x || y2 != y) ==> s.cell(x2, y2) == s0.cell(
                            x2,
                            y2,
                        ))
                },
                Err(e) => {
                    &&& *final(self) == *old(self)
                    &&& if old(self).is_resolved() {
                        e == MapError::IndexOutOfBounds && (old(self).store matches Some(s0)
                            && !s0.in_bounds(x as int, y as int))
                    } else {
                        e == MapError::NotReady
                    }
                },
            },
    {
        match self.store.as_mut() {
            None => Err(MapError::NotReady),
            Some(s) => s.set(x, y, v),
        }
    }

    /// Bulk-sets every cell to `v`.  Fails with `NotReady` while
    /// unresolved.
    pub fn fill(&mut self, v: u16) -> (r: Result<(), MapError>)
        requires
            old(self).wf(),
        ensures
            final(self).wf(),
            final(self).uniform == old(self).uniform,
            final(self).atlas == old(self).atlas,
            final(self).policy == old(self).policy,
            match r {
                Ok(()) => old(self).is_resolved() && (final(self).store matches Some(s)
                    && forall|x: int, y: int| s.in_bounds(x, y) ==> s.cell(x, y) == v),
                Err(e) => !old(self).is_resolved() && e == MapError::NotReady && *final(self)
                    == *old(self),
            },
    {
        match self.store.as_mut() {
            None => Err(MapError::NotReady),
            Some(s) => {
                s.fill(v);
                Ok(())
            },
        }
    }

    /// The packed index buffer for upload to the rendering boundary.
    /// Fails with `NotReady` while unresolved.
    pub fn packed_data(&self) -> (r: Result<&Vec<u8>, MapError>)
        requires
            self.wf(),
        ensures
            match r {
                Ok(d) => self.store matches Some(s) && d@ == s.data@,
                Err(e) => !self.is_resolved() && e == MapError::NotReady,
            },
    {
        match &self.store {
            None => Err(MapError::NotReady),
            Some(s) => Ok(s.packed_data()),
        }
    }

    /// The world-space bounding box of the map.  Fails with `NotReady`
    /// while unresolved.
    pub fn world_size(&self) -> (r: Result<Point, MapError>)
        ensures
            match r {
                Ok(p) => self.uniform.derived matches Some(d) && p == d.world_size,
                Err(e) => !self.is_resolved() && e == MapError::NotReady,
            },
    {
        self.uniform.world_size()
    }

    /// The inverse projection matrix.  Fails with `NotReady` while
    /// unresolved.
    pub fn inverse_projection(&self) -> (r: Result<InverseProjection, MapError>)
        ensures
            match r {
                Ok(m) => self.uniform.derived matches Some(d) && m == d.inv,
                Err(e) => !self.is_resolved() && e == MapError::NotReady,
            },
    {
        self.uniform.inverse_projection()
    }

    /// The shared atlas asset reference, passed through unmodified.
    pub fn atlas(&self) -> (r: AtlasHandle)
        ensures
            r == self.atlas,
    {
        self.atlas
    }

    /// The overlap policy of this map's per-pixel resolution.
    pub fn overlap_policy(&self) -> (r: OverlapPolicy)
        ensures
            r == self.policy,
    {
        self.policy
    }

    /// Forward transform of a grid coordinate; pure, available in both
    /// states.
    pub fn to_world(&self, gx: i64, gy: i64) -> (r: Point)
        requires
            self.wf(),
            -GRID_LIMIT <= gx <= GRID_LIMIT,
            -GRID_LIMIT <= gy <= GRID_LIMIT,
        ensures
            r.xn == world_xn(self.uniform.proj, self.uniform.tile_w as int, gx as int, gy as int),
            r.yn == world_yn(self.uniform.proj, self.uniform.tile_h as int, gx as int, gy as int),
            r.den == world_den(self.uniform.proj),
            r.wf(),
            r.bounded(WORLD_NUM_LIMIT as int, WORLD_DEN_LIMIT as int),
    {
        self.uniform.to_world(gx, gy)
    }

    /// Forward transform of a fractional grid point; pure, available in
    /// both states.
    pub fn to_world_point(&self, g: &Point) -> (r: Point)
        requires
            self.wf(),
            g.wf(),
            g.bounded(GRIDPT_NUM_LIMIT as int, GRIDPT_DEN_LIMIT as int),
        ensures
            r.xn == world_pt_xn(
                self.uniform.proj,
                self.uniform.tile_w as int,
                g.xn as int,
                g.yn as int,
                g.den as int,
            ),
            r.yn == world_pt_yn(
                self.uniform.proj,
                self.uniform.tile_h as int,
                g.xn as int,
                g.yn as int,
                g.den as int,
            ),
            r.den == world_pt_den(self.uniform.proj, g.den as int),
            r.wf(),
            r.bounded(WORLD_NUM_LIMIT as int, WORLD_DEN_LIMIT as int),
    {
        self.uniform.to_world_point(g)
    }

    /// Inverse transform of a world point; pure, available in both states.
    pub fn to_grid(&self, w: &Point) -> (r: Point)
        requires
            self.wf(),
            w.wf(),
            w.bounded(WORLD_NUM_LIMIT as int, WORLD_DEN_LIMIT as int),
        ensures
            r.xn == grid_xn(
                self.uniform.proj,
                self.uniform.tile_w as int,
                self.uniform.tile_h as int,
                w.xn as int,
                w.yn as int,
                w.den as int,
            ),
            r.yn == grid_yn(
                self.uniform.proj,
                self.uniform.tile_w as int,
                self.uniform.tile_h as int,
                w.xn as int,
                w.yn as int,
                w.den as int,
            ),
            r.den == grid_den(
                self.uniform.proj,
                self.uniform.tile_w as int,
                self.uniform.tile_h as int,
                w.den as int,
            ),
            r.wf(),
            r.bounded(GRID_NUM_LIMIT as int, GRID_DEN_LIMIT as int),
    {
        self.uniform.to_grid(w)
    }

    /// Hit-testing: the integer grid cell under a world point, the CPU
    /// equivalent of the per-pixel resolution pass in perspective mode.
    /// Pure, available in both states.
    pub fn world_to_cell(&self, w: &Point) -> (r: (i128, i128))
        requires
            self.wf(),
            w.wf(),
            w.bounded(WORLD_NUM_LIMIT as int, WORLD_DEN_LIMIT as int),
        ensures
            ({
                let tsx = self.uniform.tile_w as int;
                let tsy = self.uniform.tile_h as int;
                let gxn = grid_xn(self.uniform.proj, tsx, tsy, w.xn as int, w.yn as int, w.den as int);
                let gyn = grid_yn(self.uniform.proj, tsx, tsy, w.xn as int, w.yn as int, w.den as int);
                let gden = grid_den(self.uniform.proj, tsx, tsy, w.den as int);
                r.0 == gxn / gden && r.1 == gyn / gden
            }),
    {
        perspective_owner(&self.uniform.proj, w, self.uniform.tile_w, self.uniform.tile_h)
    }
}

} // verus!
