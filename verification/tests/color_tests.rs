use raycaster::color::Color;
use raycaster::color::DARKEN_FULL;

#[test]
fn test_hex_parsing() {
    let red = Color::from_hex(0xFF0000);
    assert_eq!(red.r, 255);
    assert_eq!(red.g, 0);
    assert_eq!(red.b, 0);
    assert_eq!(red.a, 255);
}

#[test]
fn test_hex_alpha_parsing() {
    let translucent_blue = Color::from_hex_alpha(0x0000FF80);
    assert_eq!(translucent_blue.r, 0);
    assert_eq!(translucent_blue.g, 0);
    assert_eq!(translucent_blue.b, 255);
    assert_eq!(translucent_blue.a, 128); // 0x80 is 128
}

#[test]
fn test_darkened() {
    let white = Color::new(200, 200, 200, 255);
    // Half brightness: 128 of 256 parts
    let gray = white.darkened(128);
    assert_eq!(gray.r, 100);
    assert_eq!(gray.a, 255); // Alpha should stay the same
}

#[test]
fn test_darkened_full_is_identity() {
    let c = Color::new(12, 200, 255, 77);
    let same = c.darkened(DARKEN_FULL);
    assert_eq!(same.r, 12);
    assert_eq!(same.g, 200);
    assert_eq!(same.b, 255);
    assert_eq!(same.a, 77);
}

#[test]
fn test_darkened_zero_is_black() {
    let c = Color::new(12, 200, 255, 77);
    let black = c.darkened(0);
    assert_eq!(black.r, 0);
    assert_eq!(black.g, 0);
    assert_eq!(black.b, 0);
    assert_eq!(black.a, 77);
}

#[test]
fn test_to_array() {
    let color = Color::new(1, 2, 3, 4);
    assert_eq!(color.to_array(), [1, 2, 3, 4]);
}
