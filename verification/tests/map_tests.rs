use fast_tilemap::frac::{floor_div, Point};
use fast_tilemap::map::{AtlasHandle, LoadState, TileMap};
use fast_tilemap::overlap::{atlas_cell_of, dominant_index, perspective_owner, OverlapPolicy};
use fast_tilemap::projection::Projection;
use fast_tilemap::uniform::MapUniform;
use fast_tilemap::MapError;

fn sample_map() -> TileMap {
    TileMap::new(
        23,
        57,
        40,
        20,
        AtlasHandle { id: 1 },
        Projection::identity(),
        OverlapPolicy::Dominance,
    )
}

#[test]
fn unresolved_map_reports_not_ready() {
    let mut m = sample_map();
    assert_eq!(m.load_state(), LoadState::Unresolved);
    assert_eq!(m.get(0, 0), Err(MapError::NotReady));
    assert_eq!(m.set(0, 0, 1), Err(MapError::NotReady));
    assert_eq!(m.fill(1), Err(MapError::NotReady));
    assert!(m.world_size().is_err());
    assert!(m.inverse_projection().is_err());
    assert!(m.packed_data().is_err());
    // Polling while the asset is still loading is the expected steady
    // state, not an error.
    assert_eq!(m.update(None), Ok(false));
    assert_eq!(m.load_state(), LoadState::Unresolved);
}

#[test]
fn update_resolves_and_allocates_store() {
    let mut m = sample_map();
    assert_eq!(m.update(Some((800, 400))), Ok(true));
    assert_eq!(m.load_state(), LoadState::Resolved);
    // The freshly allocated store reads the sentinel everywhere.
    assert_eq!(m.get(0, 0), Ok(0));
    assert_eq!(m.get(22, 56), Ok(0));
    assert_eq!(m.get(23, 56), Err(MapError::IndexOutOfBounds));
    // Once resolved the map stays resolved; further answers are ignored.
    assert_eq!(m.update(None), Ok(true));
    assert_eq!(m.update(Some((801, 400))), Ok(true));
    assert_eq!(m.load_state(), LoadState::Resolved);
}

#[test]
fn resolve_rejects_non_divisible_atlas() {
    // Tile footprint 40x20: 800x400 is 20x20 whole cells, 801x400 is not.
    let mut good = MapUniform::new(23, 57, 40, 20, Projection::identity());
    assert_eq!(good.resolve(800, 400), Ok(()));
    let mut bad = MapUniform::new(23, 57, 40, 20, Projection::identity());
    assert_eq!(bad.resolve(801, 400), Err(MapError::AtlasNotDivisible));
    assert!(!bad.is_resolved());
    assert!(bad.world_size().is_err());
    let mut bad_h = MapUniform::new(23, 57, 40, 20, Projection::identity());
    assert_eq!(bad_h.resolve(800, 410), Err(MapError::AtlasNotDivisible));
}

#[test]
fn resolve_twice_derives_identical_fields() {
    let mut u = MapUniform::new(23, 57, 40, 20, Projection::identity());
    assert_eq!(u.resolve(800, 400), Ok(()));
    let world1 = u.world_size().unwrap();
    let inv1 = u.inverse_projection().unwrap();
    let atlas1 = u.atlas_size().unwrap();
    assert_eq!(u.resolve(800, 400), Ok(()));
    assert_eq!(u.world_size().unwrap(), world1);
    assert_eq!(u.inverse_projection().unwrap(), inv1);
    assert_eq!(u.atlas_size().unwrap(), atlas1);
}

#[test]
fn world_size_of_identity_map() {
    let mut u = MapUniform::new(23, 57, 40, 20, Projection::identity());
    u.resolve(800, 400).unwrap();
    let ws = u.world_size().unwrap();
    // 23 * 40 = 920 wide, 57 * 20 = 1140 tall, over denominator 1.
    assert!(ws.is_integer_pair(920, 1140));
}

#[test]
fn world_size_of_axonometric_map_is_bounding_box() {
    // Axonometric rows have mixed signs; the bounding box of the sheared
    // grid rectangle spans both directions.  Width: (2*23 + 2*57)/4 tiles
    // of 40 = 1600; height: (23 + 57)/4 tiles of 20 = 400.
    let mut u = MapUniform::new(23, 57, 40, 20, Projection::axonometric());
    u.resolve(800, 400).unwrap();
    let ws = u.world_size().unwrap();
    assert!(ws.is_integer_pair(1600, 400));
    // A square axonometric map still has a non-degenerate quad.
    let mut sq = MapUniform::new(8, 8, 40, 20, Projection::axonometric());
    sq.resolve(800, 400).unwrap();
    let wsq = sq.world_size().unwrap();
    assert!(wsq.is_integer_pair(320, 80));
}

#[test]
fn resolve_rejects_atlas_hot_swap() {
    let mut u = MapUniform::new(23, 57, 40, 20, Projection::identity());
    assert_eq!(u.resolve(800, 400), Ok(()));
    let ws = u.world_size().unwrap();
    // Re-resolving at a different (even divisible) atlas size is an
    // unsupported hot-swap; the first resolution stays.
    assert_eq!(u.resolve(400, 400), Err(MapError::AtlasChangeUnsupported));
    assert_eq!(u.atlas_size(), Ok((800, 400)));
    assert_eq!(u.world_size().unwrap(), ws);
    // The same atlas size is accepted and changes nothing.
    assert_eq!(u.resolve(800, 400), Ok(()));
    assert_eq!(u.atlas_size(), Ok((800, 400)));
}

#[test]
fn dominance_highest_priority_wins() {
    // Cells A (priority 1) and B (priority 2) both cover the pixel: B wins.
    let winner = dominant_index(&vec![1, 2]).unwrap();
    assert_eq!(winner, 1);
}

#[test]
fn dominance_tie_later_index_wins() {
    let winner = dominant_index(&vec![5, 3, 5, 2]).unwrap();
    assert_eq!(winner, 2);
    assert_eq!(dominant_index(&vec![]), None);
}

#[test]
fn perspective_edge_pixel_resolves_to_one_tile() {
    // A world point exactly on the shared edge of two diamond footprints
    // resolves to one fixed owner, stably across evaluations.
    let p = Projection::axonometric();
    let edge = Point::new(0, 0, 1);
    let first = perspective_owner(&p, &edge, 64, 32);
    let second = perspective_owner(&p, &edge, 64, 32);
    assert_eq!(first, second);
    // Ownership is exclusive: the same pixel never maps to two cells.
    let g = p.to_grid(&edge, 64, 32);
    let owner = (floor_div(g.xn, g.den), floor_div(g.yn, g.den));
    assert_eq!(first, owner);
}

#[test]
fn checkerboard_end_to_end() {
    // A 23x57 identity-tile grid with a 2-color checkerboard.
    let mut m = sample_map();
    assert_eq!(m.update(Some((800, 400))), Ok(true));
    for y in 0..57u32 {
        for x in 0..23u32 {
            let v = (((x + y) % 2) + 1) as u16;
            assert_eq!(m.set(x, y, v), Ok(()));
        }
    }
    // to_world of the origin round-trips through to_grid.
    let w0 = m.to_world(0, 0);
    let g0 = m.to_grid(&w0);
    assert!(g0.is_integer_pair(0, 0));
    // The pixel under the map's geometric center: world size is 920x1140,
    // so the center is (460, 570); it falls in cell (11, 28).
    let center = Point::new(460, 570, 1);
    let cell = m.world_to_cell(&center);
    assert_eq!(cell, (11, 28));
    let stored = m.get(11, 28).unwrap();
    // Checker parity of (11 + 28) is odd: color 2, atlas cell 1.
    assert_eq!(stored, 2);
    assert_eq!(atlas_cell_of(stored), Some(1));
}

#[test]
fn update_propagates_divisibility_error() {
    let mut m = sample_map();
    assert_eq!(m.update(Some((801, 400))), Err(MapError::AtlasNotDivisible));
    // The failed resolution left the map unresolved and untouched.
    assert_eq!(m.load_state(), LoadState::Unresolved);
    assert_eq!(m.get(0, 0), Err(MapError::NotReady));
    // A compatible atlas still resolves it afterwards.
    assert_eq!(m.update(Some((800, 400))), Ok(true));
}

#[test]
fn error_descriptions_name_the_condition() {
    assert_eq!(MapError::NotReady.describe(), "atlas not loaded yet");
    assert_eq!(
        MapError::AtlasNotDivisible.describe(),
        "atlas size not divisible by tile footprint"
    );
    assert_eq!(MapError::IndexOutOfBounds.describe(), "grid coordinate out of bounds");
}

#[test]
fn map_accessors_pass_through() {
    let mut m = sample_map();
    assert_eq!(m.size(), (23, 57));
    assert_eq!(m.atlas(), AtlasHandle { id: 1 });
    assert_eq!(m.overlap_policy(), OverlapPolicy::Dominance);
    m.update(Some((800, 400))).unwrap();
    let d = m.packed_data().unwrap();
    assert_eq!(d.len(), 23 * 57 * 2);
    let inv = m.inverse_projection().unwrap();
    // The inverse of the identity matrix is the identity over denominator 1.
    assert_eq!((inv.n00, inv.n01, inv.n10, inv.n11, inv.den), (1, 0, 0, 1, 1));
}
