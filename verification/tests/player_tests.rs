use raycaster::FP_ONE;
use raycaster::player::FOV_PLANE;
use raycaster::player::Player;

#[test]
fn test_player_rotation_integrity() {
    let mut p = Player::new(0, 0);
    // Rotate the player 45 degrees: cosine and sine are both sqrt(2)/2
    p.rotate(46341, 46341);

    // The dot product should still be roughly 0
    let dot = p.dir.dot(&p.plane);
    assert!(dot.abs() <= 1);
}

#[test]
fn test_player_defaults() {
    let p = Player::new(FP_ONE, 2 * FP_ONE);
    assert_eq!(p.pos.x, FP_ONE);
    assert_eq!(p.pos.y, 2 * FP_ONE);
    assert_eq!(p.dir.x, 0);
    assert_eq!(p.dir.y, -FP_ONE);
    assert_eq!(p.plane.x, FOV_PLANE);
    assert_eq!(p.plane.y, 0);
}

#[test]
fn test_player_rotation_keeps_lengths() {
    let mut p = Player::new(0, 0);
    let dir_len_before = p.dir.length();
    let plane_len_before = p.plane.length();
    // Rotate by 90 degrees: cosine 0, sine 1
    p.rotate(0, FP_ONE);
    assert!((p.dir.length() - dir_len_before).abs() <= 2);
    assert!((p.plane.length() - plane_len_before).abs() <= 2);
}
