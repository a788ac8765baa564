use raycaster::num::clamp;
use raycaster::num::max;
use raycaster::num::min;

#[test]
fn test_generic_math() {
    // Testing clamp with integers
    assert_eq!(clamp(10, 0, 5), 5);

    // Testing min/max with integers
    assert_eq!(min(1, 10), 1);
    assert_eq!(max(1, 10), 10);
}

#[test]
fn test_clamp_low_and_passthrough() {
    assert_eq!(clamp(-3, 0, 5), 0);
    assert_eq!(clamp(4, 0, 5), 4);
}
