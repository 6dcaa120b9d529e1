use fast_tilemap::store::TileIndexStore;
use fast_tilemap::overlap::atlas_cell_of;
use fast_tilemap::MapError;

#[test]
fn fresh_store_is_all_zero() {
    // Sentinel convention: a never-written store reads 0 everywhere, which
    // sampling must treat as "no tile", not as atlas cell 0.
    let s = TileIndexStore::new(8, 5);
    for y in 0..5 {
        for x in 0..8 {
            assert_eq!(s.get(x, y).unwrap(), 0);
        }
    }
    assert_eq!(atlas_cell_of(0), None);
    assert_eq!(atlas_cell_of(1), Some(0));
    assert_eq!(atlas_cell_of(7), Some(6));
}

#[test]
fn set_then_get_returns_value() {
    let mut s = TileIndexStore::new(16, 9);
    assert_eq!(s.set(3, 4, 513), Ok(()));
    assert_eq!(s.get(3, 4), Ok(513));
    // Neighbours are untouched.
    assert_eq!(s.get(2, 4), Ok(0));
    assert_eq!(s.get(3, 5), Ok(0));
    // Largest value survives the byte packing.
    assert_eq!(s.set(15, 8, 65535), Ok(()));
    assert_eq!(s.get(15, 8), Ok(65535));
}

#[test]
fn out_of_bounds_access_fails() {
    let mut s = TileIndexStore::new(4, 3);
    assert_eq!(s.get(4, 0), Err(MapError::IndexOutOfBounds));
    assert_eq!(s.get(0, 3), Err(MapError::IndexOutOfBounds));
    assert_eq!(s.get(u32::MAX, u32::MAX), Err(MapError::IndexOutOfBounds));
    assert_eq!(s.set(4, 0, 1), Err(MapError::IndexOutOfBounds));
    assert_eq!(s.set(0, 3, 1), Err(MapError::IndexOutOfBounds));
    // The failed writes corrupted nothing.
    for y in 0..3 {
        for x in 0..4 {
            assert_eq!(s.get(x, y), Ok(0));
        }
    }
}

#[test]
fn fill_sets_every_cell() {
    let mut s = TileIndexStore::new(6, 7);
    s.fill(300);
    for y in 0..7 {
        for x in 0..6 {
            assert_eq!(s.get(x, y), Ok(300));
        }
    }
}

#[test]
fn packed_data_is_row_major_little_endian() {
    let mut s = TileIndexStore::new(3, 2);
    assert_eq!(s.set(1, 0, 0x0102), Ok(()));
    assert_eq!(s.set(2, 1, 0xabcd), Ok(()));
    let d = s.packed_data();
    assert_eq!(d.len(), 12);
    // Cell (1,0) is the second cell: bytes 2..4, little-endian.
    assert_eq!(d[2], 0x02);
    assert_eq!(d[3], 0x01);
    // Cell (2,1) is the last cell: bytes 10..12.
    assert_eq!(d[10], 0xcd);
    assert_eq!(d[11], 0xab);
}

#[test]
fn size_reports_dimensions() {
    let s = TileIndexStore::new(23, 57);
    assert_eq!(s.size(), (23, 57));
}
