use raycaster::FP_ONE;
use raycaster::vec2::Vector2;

#[test]
fn test_new() {
    let v = Vector2::new(FP_ONE, 2 * FP_ONE);
    assert_eq!(v.x, FP_ONE);
    assert_eq!(v.y, 2 * FP_ONE);
}

#[test]
fn test_add() {
    let v1 = Vector2::new(3 * FP_ONE, FP_ONE);
    let v2 = Vector2::new(FP_ONE, 2 * FP_ONE);
    let res = v1.add(&v2);
    assert_eq!(res.x, 4 * FP_ONE);
    assert_eq!(res.y, 3 * FP_ONE);
}

#[test]
fn test_length() {
    let v = Vector2::new(3 * FP_ONE, 4 * FP_ONE);
    assert_eq!(v.length(), 5 * FP_ONE);
}

#[test]
fn test_scale() {
    let v = Vector2::new(2 * FP_ONE, 3 * FP_ONE);
    let res = v.scale(2 * FP_ONE);
    assert_eq!(res.x, 4 * FP_ONE);
    assert_eq!(res.y, 6 * FP_ONE);
}

#[test]
fn test_normalization() {
    let v = Vector2::new(3 * FP_ONE, 4 * FP_ONE);
    let unit = v.normalize();
    // Check if length is now 1.0, up to fixed-point rounding
    assert!((unit.length() - FP_ONE).abs() <= 2);
}

#[test]
fn test_normalize_zero_vector() {
    let z = Vector2::zero().normalize();
    assert_eq!(z.x, 0);
    assert_eq!(z.y, 0);
}

#[test]
fn test_dot_product() {
    let v_forward = Vector2::new(FP_ONE, 0);
    let v_up = Vector2::new(0, FP_ONE);
    let v_backward = Vector2::new(-FP_ONE, 0);

    // 1. Perpendicular vectors (90 degrees) must be 0.0
    assert_eq!(v_forward.dot(&v_up), 0);

    // 2. Parallel vectors (facing same way) should be 1.0 * 1.0 = 1.0
    assert_eq!(v_forward.dot(&v_forward), FP_ONE);

    // 3. Opposite vectors should be -1.0
    assert_eq!(v_forward.dot(&v_backward), -FP_ONE);
}

#[test]
fn test_rotate() {
    let v = Vector2::new(FP_ONE, 0);
    // A quarter turn: cosine 0, sine 1 in fixed point
    let result = v.rotate(0, FP_ONE);

    assert!(result.x.abs() <= 1);
    assert!((result.y - FP_ONE).abs() <= 1);
}

#[test]
fn test_rotate_round_trip() {
    // Rotating by a rotor and then by its inverse restores the vector up
    // to fixed-point rounding.  Rotor: cosine/sine of about 30 degrees.
    let c: i64 = 56756;
    let s: i64 = 32768;
    let v = Vector2::new(FP_ONE, 2 * FP_ONE);
    let back = v.rotate(c, s).rotate(c, -s);
    assert!((back.x - v.x).abs() <= 4);
    assert!((back.y - v.y).abs() <= 4);
}
