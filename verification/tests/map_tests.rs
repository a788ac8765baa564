use raycaster::map::TileMap;

#[test]
fn test_map_creation() {
    let map = TileMap::new(10, 10);
    assert_eq!(map.grid.len(), 100);
    assert_eq!(map.get_tile(9, 9), Some(0));
}

#[test]
fn test_set_and_get() {
    let mut map = TileMap::new(3, 3);
    map.set_tile(1, 1, 255);
    assert_eq!(map.get_tile(1, 1), Some(255));
}

#[test]
fn test_map_bounds_safety() {
    let map = TileMap::new(2, 2);
    // Checking the exact edge (x=2 on a width=2 map is OUT)
    assert_eq!(map.get_tile(2, 0), None);
    assert_eq!(map.get_tile(0, 2), None);
}

#[test]
fn test_set_tile_out_of_bounds_is_ignored() {
    let mut map = TileMap::new(2, 2);
    map.set_tile(5, 5, 9);
    for y in 0..2 {
        for x in 0..2 {
            assert_eq!(map.get_tile(x, y), Some(0));
        }
    }
}
