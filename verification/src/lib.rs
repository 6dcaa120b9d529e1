//! Core data model for rendering large 2D tile grids as a single quad:
//! the whole map is a packed index texture plus a small derived-parameter
//! record, and a per-pixel resolution pass picks the source tile.
//!
//! The crate provides the projection engine (grid <-> world transforms for
//! orthogonal and axonometric layouts), the bounds-checked tile index store,
//! the map uniform model with its atlas-divisibility invariant, the
//! asset-loading state machine, and the overlap resolution policy.
//!
//! All coordinate arithmetic is exact: world coordinates are rationals with
//! a shared denominator, so the inverse transform undoes the forward one
//! without rounding.

use vstd::prelude::*;
use vstd::string::StringExecFns;

pub mod frac;
pub mod map;
pub mod overlap;
pub mod projection;
pub mod store;
pub mod uniform;

verus! {

/// Errors surfaced by the map core.
#[derive(Clone, Copy, Debug, PartialEq, Eq, Structural)]
pub enum MapError {
    /// The operation needs resolved geometry but the atlas is not loaded yet;
    /// the caller should retry on a later update tick.
    NotReady,
    /// The atlas pixel size is not an integer multiple of the tile footprint;
    /// fatal to the map instance.
    AtlasNotDivisible,
    /// A grid coordinate lies outside the map size; recoverable caller error.
    IndexOutOfBounds,
    /// A resolution was attempted at a different atlas size after the map
    /// already resolved; an atlas hot-swap needs a fresh map.
    AtlasChangeUnsupported,
}

impl MapError {
    /// A short human-readable name for the error.
    pub fn describe(&self) -> (r: String)
        ensures
            r@ == match *self {
                MapError::NotReady => "atlas not loaded yet"@,
                MapError::AtlasNotDivisible => "atlas size not divisible by tile footprint"@,
                MapError::IndexOutOfBounds => "grid coordinate out of bounds"@,
                MapError::AtlasChangeUnsupported => "atlas hot-swap needs a fresh map"@,
            },
    {
        match *self {
            MapError::NotReady => String::from_str("atlas not loaded yet"),
            MapError::AtlasNotDivisible => String::from_str(
                "atlas size not divisible by tile footprint",
            ),
            MapError::IndexOutOfBounds => String::from_str("grid coordinate out of bounds"),
            MapError::AtlasChangeUnsupported => String::from_str(
                "atlas hot-swap needs a fresh map",
            ),
        }
    }
}

} // verus!
