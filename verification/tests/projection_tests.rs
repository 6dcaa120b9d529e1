use fast_tilemap::frac::{floor_div, Point};
use fast_tilemap::projection::Projection;

#[test]
fn identity_to_world_origin() {
    // Identity projection, tile 40x20, anchor at the tile center: grid
    // (0,0) sits at world (20, 10).
    let p = Projection::identity();
    let w = p.to_world(0, 0, 40, 20);
    assert_eq!(w.xn, 40);
    assert_eq!(w.yn, 20);
    assert_eq!(w.den, 2);
    assert!(w.is_integer_pair(20, 10));
}

#[test]
fn identity_to_world_steps_by_tile_size() {
    let p = Projection::identity();
    let w = p.to_world(3, 7, 40, 20);
    // (3 * 40 + 20, 7 * 20 + 10)
    assert!(w.is_integer_pair(140, 150));
}

#[test]
fn round_trip_identity() {
    let p = Projection::identity();
    for gx in 0..23i64 {
        for gy in 0..57i64 {
            let w = p.to_world(gx, gy, 40, 20);
            let g = p.to_grid(&w, 40, 20);
            assert!(g.is_integer_pair(gx, gy));
        }
    }
}

#[test]
fn round_trip_axonometric() {
    let p = Projection::axonometric();
    for gx in -5..23i64 {
        for gy in -3..57i64 {
            let w = p.to_world(gx, gy, 64, 32);
            let g = p.to_grid(&w, 64, 32);
            assert!(g.is_integer_pair(gx, gy));
        }
    }
}

#[test]
fn round_trip_user_matrix() {
    // An arbitrary invertible shear.
    let p = Projection::new(3, 1, -2, 5, 7, 2, 1, 3).unwrap();
    for gx in -4..5i64 {
        for gy in -4..5i64 {
            let w = p.to_world(gx, gy, 17, 9);
            let g = p.to_grid(&w, 17, 9);
            assert!(g.is_integer_pair(gx, gy));
        }
    }
}

#[test]
fn to_world_point_handles_fractional_coordinates() {
    // Identity projection, tile 40x20: the fractional grid point
    // (1/2, 3/2) sits at world (0.5*40 + 20, 1.5*20 + 10) = (40, 40).
    let p = Projection::identity();
    let g = Point::new(1, 3, 2);
    let w = p.to_world_point(&g, 40, 20);
    assert!(w.is_integer_pair(40, 40));
    // On integer coordinates it agrees with the integer transform.
    let gi = Point::new(3, 7, 1);
    let wi = p.to_world_point(&gi, 40, 20);
    assert!(wi.is_integer_pair(140, 150));
}

#[test]
fn round_trip_fractional_point() {
    // The inverse transform undoes the forward one on fractional grid
    // points too, as rational values.
    let p = Projection::axonometric();
    let g = Point::new(-7, 11, 4);
    let w = p.to_world_point(&g, 64, 32);
    let back = p.to_grid(&w, 64, 32);
    // Same rational value: cross-multiplied numerators agree.
    assert_eq!(back.xn * g.den, g.xn * back.den);
    assert_eq!(back.yn * g.den, g.yn * back.den);
}

#[test]
fn new_rejects_singular_matrix() {
    // Determinant zero: rows are linearly dependent.
    assert!(Projection::new(2, 4, 1, 2, 1, 0, 0, 1).is_none());
}

#[test]
fn new_rejects_anchor_outside_unit_square() {
    assert!(Projection::new(1, 0, 0, 1, 1, 3, 0, 2).is_none());
    assert!(Projection::new(1, 0, 0, 1, 1, -1, 0, 2).is_none());
}

#[test]
fn new_accepts_valid_projection() {
    let p = Projection::new(1, 0, 0, 1, 1, 1, 1, 2).unwrap();
    assert_eq!(p, Projection::identity());
}

#[test]
fn floor_div_rounds_toward_negative_infinity() {
    assert_eq!(floor_div(7, 2), 3);
    assert_eq!(floor_div(-7, 2), -4);
    assert_eq!(floor_div(-8, 2), -4);
    assert_eq!(floor_div(0, 5), 0);
}

#[test]
fn point_is_integer_pair_detects_fractions() {
    let half = Point::new(1, 3, 2);
    assert!(!half.is_integer_pair(0, 0));
    let whole = Point::new(4, -6, 2);
    assert!(whole.is_integer_pair(2, -3));
}
