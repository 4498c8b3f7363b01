use platformer_core::map::CollisionMap;
use platformer_core::map::TileEntry;

fn entry(x: i32, y: i32, value: i32) -> TileEntry {
    TileEntry { x, y, value }
}

#[test]
fn new_map_is_empty() {
    let m = CollisionMap::new(16_000, 16_000, 0, 0);
    assert!(!m.is_solid(0, 0));
    assert_eq!(m.get_tile_value(0, 0), None);
    assert_eq!(m.tile_size_x, 16_000);
    assert_eq!(m.origin_y, 0);
}

#[test]
fn set_tile_records_solids_and_values() {
    let mut m = CollisionMap::new(16_000, 16_000, 0, 0);
    m.set_tile(3, -2, 1);
    m.set_tile(4, -2, 2);
    m.set_tile(5, -2, 7);
    assert!(m.is_solid(3, -2));
    assert!(!m.is_solid(4, -2));
    assert!(!m.is_solid(5, -2));
    assert_eq!(m.get_tile_value(3, -2), Some(1));
    assert_eq!(m.get_tile_value(4, -2), Some(2));
    assert_eq!(m.get_tile_value(5, -2), Some(7));
    assert_eq!(m.get_tile_value(6, -2), None);
}

#[test]
fn nonpositive_values_are_skipped() {
    let mut m = CollisionMap::new(16_000, 16_000, 0, 0);
    m.set_tile(1, 1, 0);
    m.set_tile(2, 2, -5);
    assert_eq!(m.get_tile_value(1, 1), None);
    assert_eq!(m.get_tile_value(2, 2), None);
    assert!(!m.is_solid(1, 1));
}

#[test]
fn negative_coordinates_are_distinct() {
    let mut m = CollisionMap::new(16_000, 16_000, 0, 0);
    m.set_tile(-1, 2, 1);
    assert!(m.is_solid(-1, 2));
    assert!(!m.is_solid(2, -1));
    assert!(!m.is_solid(1, 2));
    assert!(!m.is_solid(-1, -2));
}

#[test]
fn clear_empties_but_keeps_geometry() {
    let mut m = CollisionMap::new(16_000, 16_000, -32_000, 8_000);
    m.set_tile(0, 0, 1);
    m.set_tile(1, 0, 2);
    m.clear();
    assert!(!m.is_solid(0, 0));
    assert_eq!(m.get_tile_value(1, 0), None);
    assert_eq!(m.tile_size_x, 16_000);
    assert_eq!(m.origin_x, -32_000);
    assert_eq!(m.origin_y, 8_000);
}

#[test]
fn rebuild_replaces_contents() {
    let mut m = CollisionMap::new(16_000, 16_000, 0, 0);
    m.set_tile(9, 9, 1);
    let entries = vec![entry(0, 0, 1), entry(1, 0, 2), entry(2, 0, 0)];
    m.rebuild(16_000, 16_000, 0, 0, &entries);
    assert!(!m.is_solid(9, 9));
    assert_eq!(m.get_tile_value(9, 9), None);
    assert!(m.is_solid(0, 0));
    assert_eq!(m.get_tile_value(1, 0), Some(2));
    assert_eq!(m.get_tile_value(2, 0), None);
}

#[test]
fn rebuild_round_trip_is_order_independent() {
    let forward = vec![
        entry(0, 0, 1),
        entry(1, 0, 1),
        entry(2, 0, 2),
        entry(-3, 4, 1),
        entry(7, -8, 5),
    ];
    let mut backward = forward.clone();
    backward.reverse();

    let mut m1 = CollisionMap::new(16_000, 16_000, 0, 0);
    m1.rebuild(16_000, 16_000, 0, 0, &forward);

    // clear, then repopulate with the same tile set in another order
    let mut m2 = CollisionMap::new(16_000, 16_000, 0, 0);
    m2.rebuild(16_000, 16_000, 0, 0, &forward);
    m2.clear();
    m2.rebuild(16_000, 16_000, 0, 0, &backward);

    for x in -4i32..9 {
        for y in -9i32..6 {
            assert_eq!(m1.is_solid(x, y), m2.is_solid(x, y));
            assert_eq!(m1.get_tile_value(x, y), m2.get_tile_value(x, y));
        }
    }
}
