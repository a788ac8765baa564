use raycaster::FP_ONE;
use raycaster::map::TileMap;
use raycaster::ray::Ray;
use raycaster::vec2::Vector2;

const HALF: i64 = FP_ONE / 2;

#[test]
fn test_ray_initialization_right() {
    let pos = Vector2::new(HALF, HALF); // Center of tile (0,0)
    let dir = Vector2::new(FP_ONE, 0); // Looking perfectly East
    let ray = Ray::new(pos, dir);

    assert_eq!(ray.map_x, 0);
    assert_eq!(ray.map_y, 0);
    assert_eq!(ray.step_x, 1);

    // Since we are at 0.5 and the tile ends at 1.0,
    // we have 0.5 units to go. delta_dist.x is 1.0.
    // So side_dist.x should be 0.5.
    assert_eq!(ray.side_dist.x, HALF);

    // Since we aren't moving vertically, delta_dist.y should be huge
    assert!(ray.delta_dist.y > 1_000_000 * FP_ONE);
}

#[test]
fn test_ray_initialization_left() {
    let pos = Vector2::new(13107, HALF); // x is about 0.2
    let dir = Vector2::new(-FP_ONE, 0); // Looking West
    let ray = Ray::new(pos, dir);

    assert_eq!(ray.step_x, -1);
    // Distance to the left edge (0.0) from 0.2 is 0.2
    assert_eq!(ray.side_dist.x, 13107);
}

#[test]
fn test_ray_diagonal() {
    let pos = Vector2::new(HALF, HALF);
    let dir = Vector2::new(FP_ONE, FP_ONE);
    let ray = Ray::new(pos, dir);

    assert_eq!(ray.step_x, 1);
    assert_eq!(ray.step_y, 1);
    assert_eq!(ray.side_dist.x, HALF);
    assert_eq!(ray.side_dist.y, HALF);
}

#[test]
fn test_cast() {
    // Two rows of [0, 0, 255]: an empty corridor ending at a wall.
    let map = TileMap { width: 3, height: 2, grid: vec![0, 0, 255, 0, 0, 255] };
    let pos = Vector2::new(HALF, HALF);
    let dir = Vector2::new(FP_ONE, 0);
    let mut ray = Ray::new(pos, dir);

    let res = ray.cast(&map);
    assert!(res.is_some());
    let hit = res.unwrap();
    // The wall starts 1.5 units east of the camera.
    assert_eq!(hit.distance, FP_ONE + HALF);
    assert_eq!(hit.wall_value, 255);
    assert!(hit.hit_vertical);
}

#[test]
fn test_cast_misses_in_empty_map() {
    let map = TileMap::new(2, 2);
    let pos = Vector2::new(HALF, HALF);
    let dir = Vector2::new(FP_ONE, 0);
    let mut ray = Ray::new(pos, dir);
    assert!(ray.cast(&map).is_none());
}

#[test]
fn test_cast_distance_grows_with_pullback() {
    // Pulling the camera back along the ray adds exactly the pull-back
    // to the perpendicular distance while the same wall is hit.
    let map = TileMap { width: 3, height: 1, grid: vec![0, 0, 255] };
    let dir = Vector2::new(FP_ONE, 0);

    let mut near = Ray::new(Vector2::new(HALF, HALF), dir);
    let mut far = Ray::new(Vector2::new(13107, HALF), dir);

    let d_near = near.cast(&map).unwrap().distance;
    let d_far = far.cast(&map).unwrap().distance;
    assert_eq!(d_far - d_near, HALF - 13107);
}
