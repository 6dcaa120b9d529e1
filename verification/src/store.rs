//! The tile index store: a logical `width x height` grid of 16-bit tile
//! indices with bounds-checked access.
//!
//! The backing storage is a texture-shaped byte buffer, row-major with one
//! little-endian 16-bit cell per tile, so it can be handed directly to the
//! rendering boundary.  Cell value `0` is the sentinel for "no tile /
//! background"; values `>= 1` index into the atlas, `value - 1` giving the
//! atlas cell in row-major order.

use vstd::prelude::*;
use vstd::arithmetic::div_mod::lemma_fundamental_div_mod;
use vstd::pervasive::VecAdditionalExecFns;
use crate::MapError;

verus! {

/// Row-major offsets within one row stay inside the grid.
pub proof fn lemma_row_major_bound(x: int, y: int, w: int, h: int)
    by (nonlinear_arith)
    requires
        0 <= x < w,
        0 <= y < h,
    ensures
        0 <= y * w,
        0 <= y * w + x,
        y * w + x < w * h,
        (2 * w) * h == 2 * (w * h),
{
}

/// Row-major addressing is injective over in-bounds coordinates.
pub proof fn lemma_row_major_inj(x1: int, y1: int, x2: int, y2: int, w: int)
    by (nonlinear_arith)
    requires
        0 <= x1 < w,
        0 <= x2 < w,
        0 <= y1,
        0 <= y2,
        y1 * w + x1 == y2 * w + x2,
    ensures
        x1 == x2,
        y1 == y2,
{
}

/// The two bytes of cell `j` in a packed buffer encode the value `v`,
/// little-endian.
pub open spec fn encodes(s: Seq<u8>, j: int, v: int) -> bool {
    s[2 * j] == v % 256 && s[2 * j + 1] == v / 256
}

/// The packed tile-index grid.  One store per map, owned exclusively by it.
pub struct TileIndexStore {
    /// Grid width in cells.
    pub width: u32,
    /// Grid height in cells.
    pub height: u32,
    /// Row-major little-endian 16-bit cells, two bytes per cell.
    pub data: Vec<u8>,
}

impl TileIndexStore {
    /// The representation invariant: a non-empty grid whose byte buffer has
    /// exactly two bytes per cell.
    pub open spec fn wf(self) -> bool {
        &&& self.width >= 1
        &&& self.height >= 1
        &&& self.data@.len() == 2 * self.width * self.height
        &&& 2 * self.width * self.height <= usize::MAX
    }

    /// Whether `(x, y)` lies inside the grid.
    pub open spec fn in_bounds(self, x: int, y: int) -> bool {
        0 <= x < self.width && 0 <= y < self.height
    }

    /// The value of cell `(x, y)`, decoded from its two bytes.
    pub open spec fn cell(self, x: int, y: int) -> int {
        self.data@[2 * (y * self.width + x)] + 256 * self.data@[2 * (y * self.width + x) + 1]
    }

    /// Allocates a `width x height` store with every cell `0`, the
    /// "no tile" sentinel.
    pub fn new(width: u32, height: u32) -> (r: TileIndexStore)
        requires
            width >= 1,
            height >= 1,
            2 * width * height <= usize::MAX,
        ensures
            r.wf(),
            r.width == width,
            r.height == height,
            forall|x: int, y: int| r.in_bounds(x, y) ==> r.cell(x, y) == 0,
    {
        let data = packed_bytes(width, height, 0);
        let r = TileIndexStore { width, height, data };
        proof {
            assert forall|x: int, y: int| r.in_bounds(x, y) implies r.cell(x, y) == 0 by {
                lemma_row_major_bound(x, y, width as int, height as int);
                assert(encodes(r.data@, y * width + x, 0));
            }
        }
        r
    }

    /// The grid dimensions `(width, height)`.
    pub fn size(&self) -> (r: (u32, u32))
        ensures
            r.0 == self.width,
            r.1 == self.height,
    {
        (self.width, self.height)
    }

    /// Reads cell `(x, y)`.  Fails with `IndexOutOfBounds` exactly when the
    /// coordinate lies outside the grid.
    pub fn get(&self, x: u32, y: u32) -> (r: Result<u16, MapError>)
        requires
            self.wf(),
        ensures
            match r {
                Ok(v) => self.in_bounds(x as int, y as int) && v == self.cell(x as int, y as int),
                Err(e) => !self.in_bounds(x as int, y as int) && e == MapError::IndexOutOfBounds,
            },
    {
        if x >= self.width || y >= self.height {
            return Err(MapError::IndexOutOfBounds);
        }
        proof {
            lemma_row_major_bound(x as int, y as int, self.width as int, self.height as int);
        }
        let idx: usize = (y as usize) * (self.width as usize) + (x as usize);
        let lo = self.data[2 * idx];
        let hi = self.data[2 * idx + 1];
        Ok((lo as u16) + (hi as u16) * 256)
    }

    /// Writes `v` to cell `(x, y)`, leaving every other cell unchanged.
    /// Fails with `IndexOutOfBounds`, without touching the store, exactly
    /// when the coordinate lies outside the grid.
    pub fn set(&mut self, x: u32, y: u32, v: u16) -> (r: Result<(), MapError>)
        requires
            old(self).wf(),
        ensures
            final(self).wf(),
            final(self).width == old(self).width,
            final(self).height == old(self).height,
            match r {
                Ok(()) => {
                    &&& old(self).in_bounds(x as int, y as int)
                    &&& final(self).cell(x as int, y as int) == v
                    &&& forall|x2: int, y2: int|
                        final(self).in_bounds(x2, y2) && (x2 != x || y2 != y) ==> final(self).cell(
                            x2,
                            y2,
                        ) == old(self).cell(x2, y2)
                },
                Err(e) => {
                    &&& !old(self).in_bounds(x as int, y as int)
                    &&& e == MapError::IndexOutOfBounds
                    &&& *final(self) == *old(self)
                },
            },
    {
        if x >= self.width || y >= self.height {
            return Err(MapError::IndexOutOfBounds);
        }
        proof {
            lemma_row_major_bound(x as int, y as int, self.width as int, self.height as int);
            lemma_fundamental_div_mod(v as int, 256);
        }
        let idx: usize = (y as usize) * (self.width as usize) + (x as usize);
        self.data.set(2 * idx, (v % 256) as u8);
        self.data.set(2 * idx + 1, (v / 256) as u8);
        proof {
            let w = self.width as int;
            let h = self.height as int;
            assert forall|x2: int, y2: int|
                self.in_bounds(x2, y2) && (x2 != x || y2 != y) implies self.cell(x2, y2) == old(
                self,
            ).cell(x2, y2) by {
                lemma_row_major_bound(x2, y2, w, h);
                if y2 * w + x2 == (y as int) * w + (x as int) {
                    lemma_row_major_inj(x2, y2, x as int, y as int, w);
                }
            }
        }
        Ok(())
    }

    /// Bulk-sets every cell to `v`.
    pub fn fill(&mut self, v: u16)
        requires
            old(self).wf(),
        ensures
            final(self).wf(),
            final(self).width == old(self).width,
            final(self).height == old(self).height,
            forall|x: int, y: int| final(self).in_bounds(x, y) ==> final(self).cell(x, y) == v,
    {
        proof {
            lemma_fundamental_div_mod(v as int, 256);
        }
        self.data = packed_bytes(self.width, self.height, v);
        proof {
            assert forall|x: int, y: int| self.in_bounds(x, y) implies self.cell(x, y) == v by {
                lemma_row_major_bound(x, y, self.width as int, self.height as int);
                assert(encodes(self.data@, y * self.width + x, v as int));
            }
        }
    }

    /// The packed index buffer, ready for upload to GPU-addressable
    /// storage: row-major, one little-endian 16-bit cell per tile.
    pub fn packed_data(&self) -> (r: &Vec<u8>)
        ensures
            r@ == self.data@,
    {
        &self.data
    }
}

/// Builds the byte buffer of a `w x h` grid with every cell equal to `v`,
/// little-endian.
fn packed_bytes(w: u32, h: u32, v: u16) -> (r: Vec<u8>)
    requires
        w >= 1,
        h >= 1,
        2 * w * h <= usize::MAX,
    ensures
        r@.len() == 2 * w * h,
        forall|j: int| 0 <= j < w * h ==> #[trigger] encodes(r@, j, v as int),
{
    proof {
        assert(0 <= (w as int) * (h as int) && 2 * ((w as int) * (h as int)) == (2 * (w as int)) * (
        h as int)) by (nonlinear_arith);
    }
    let total: usize = (w as usize) * (h as usize);
    let lo: u8 = (v % 256) as u8;
    let hi: u8 = (v / 256) as u8;
    proof {
        lemma_fundamental_div_mod(v as int, 256);
    }
    let mut data: Vec<u8> = Vec::new();
    let mut i: usize = 0;
    while i < total
        invariant
            i <= total,
            total == w * h,
            2 * w * h <= usize::MAX,
            data@.len() == 2 * i,
            lo == (v as int) % 256,
            hi == (v as int) / 256,
            forall|j: int| 0 <= j < i ==> #[trigger] encodes(data@, j, v as int),
        decreases total - i,
    {
        let ghost pre = data@;
        data.push(lo);
        data.push(hi);
        proof {
            assert forall|j: int| 0 <= j < i + 1 implies #[trigger] encodes(
                data@,
                j,
                v as int,
            ) by {
                if j < i {
                    assert(encodes(pre, j, v as int));
                    assert(data@[2 * j] == pre[2 * j]);
                    assert(data@[2 * j + 1] == pre[2 * j + 1]);
                } else {
                    assert(data@[2 * j] == lo);
                    assert(data@[2 * j + 1] == hi);
                }
            }
        }
        i = i + 1;
    }
    data
}

} // verus!
