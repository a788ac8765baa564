use raycaster::CEILING_WORD;
use raycaster::FLOOR_WORD;
use raycaster::FP_ONE;
use raycaster::map::TileMap;
use raycaster::player::FOV_PLANE;
use raycaster::player::Player;
use raycaster::render;
use raycaster::texture::Texture;
use raycaster::vec2::Vector2;

/// A player standing at `(x, y)` tiles looking east, with the default
/// field of view.
fn player_facing_east(x: i64, y: i64) -> Player {
    let mut p = Player::new(x, y);
    p.dir = Vector2::new(FP_ONE, 0);
    p.plane = Vector2::new(0, FOV_PLANE);
    p
}

#[test]
fn test_render_output() {
    let mut map = TileMap::new(10, 10);
    // Place a wall at X=5, Y=0 to 10 (a vertical strip)
    for y in 0..10 {
        map.set_tile(5, y, 1);
    }

    let player = player_facing_east(FP_ONE, 5 * FP_ONE); // Standing at X=1, looking East
    let mut buffer = vec![0u32; 20 * 20];

    render(&player, &map, &mut buffer, 20, 20);

    let middle_pixel = buffer[10 * 20 + 10];

    assert!(
        middle_pixel == 0xFFCC0000 || middle_pixel == 0xFF880000,
        "Expected wall color (Red), but found: {:#X}",
        middle_pixel
    );
}

#[test]
fn test_render_empty_map_leaves_ceiling_and_floor() {
    let map = TileMap::new(2, 2);
    let player = player_facing_east(FP_ONE / 2, FP_ONE / 2);
    let mut buffer = vec![0u32; 4 * 4];

    render(&player, &map, &mut buffer, 4, 4);

    for i in 0..16 {
        if i < 8 {
            assert_eq!(buffer[i], CEILING_WORD);
        } else {
            assert_eq!(buffer[i], FLOOR_WORD);
        }
    }
}

#[test]
fn test_render_wall_slice_is_centered() {
    // A wall one tile east: the center rows of the middle column show it,
    // the edges of the column stay ceiling and floor.
    let mut map = TileMap::new(4, 4);
    for y in 0..4 {
        map.set_tile(3, y, 7);
    }
    let player = player_facing_east(FP_ONE / 2, 2 * FP_ONE + FP_ONE / 2);
    let mut buffer = vec![0u32; 16 * 16];

    render(&player, &map, &mut buffer, 16, 16);

    let mid = 16 / 2;
    // Perpendicular distance 2.5 tiles: slice rows 5..11, centered.
    assert_eq!(buffer[mid * 16 + mid], 0xFF880000);
    assert_eq!(buffer[0 * 16 + mid], CEILING_WORD);
    assert_eq!(buffer[15 * 16 + mid], FLOOR_WORD);
}

#[test]
fn test_get_pixel() {
    // Create a tiny 2x2 texture (4 pixels total)
    // Pixel colors: [Red, Green, Blue, White]
    let pixels = vec![
        255, 0, 0, 255,   // (0,0) - Red
        0, 255, 0, 255,   // (1,0) - Green
        0, 0, 255, 255,   // (0,1) - Blue
        255, 255, 255, 255, // (1,1) - White
    ];

    let texture = Texture {
        width: 2,
        height: 2,
        pixels,
    };

    // Check the Red pixel
    assert_eq!(texture.get_pixel(0, 0), [255, 0, 0, 255]);
    // Check the Green pixel
    assert_eq!(texture.get_pixel(1, 0), [0, 255, 0, 255]);
    // Check the Blue pixel
    assert_eq!(texture.get_pixel(0, 1), [0, 0, 255, 255]);
    // Check the White pixel
    assert_eq!(texture.get_pixel(1, 1), [255, 255, 255, 255]);
}
