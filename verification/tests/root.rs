use vehicle_motion::root::isqrt;
use vehicle_motion::vector::{Vector, MAX_COORDINATE};

#[test]
fn roots_of_small_numbers() {
    let expected: [u64; 17] = [0, 1, 1, 1, 2, 2, 2, 2, 2, 3, 3, 3, 3, 3, 3, 3, 4];
    let mut n: usize = 0;
    while n < 17 {
        assert_eq!(isqrt(n as u128), expected[n]);
        n += 1;
    }
}

#[test]
fn roots_next_to_perfect_squares() {
    assert_eq!(isqrt(999_999), 999);
    assert_eq!(isqrt(1_000_000), 1_000);
    assert_eq!(isqrt(1_000_001), 1_000);
    assert_eq!(isqrt(1_002_000), 1_000);
    assert_eq!(isqrt(1_002_001), 1_001);
    assert_eq!(isqrt(1_000_000_000_000_000_000_000_000_000_000_000_000), 1_000_000_000_000_000_000);
}

#[test]
fn roots_of_the_largest_numbers() {
    assert_eq!(isqrt(u128::MAX), u64::MAX);
    assert_eq!(isqrt(u128::MAX - 1), u64::MAX);
    let top = u64::MAX as u128;
    assert_eq!(isqrt(top * top), u64::MAX);
    assert_eq!(isqrt(top * top - 1), u64::MAX - 1);
}

#[test]
fn distances_between_points() {
    let origin = Vector::new(0, 0);
    assert_eq!(origin.distance(&Vector::new(3, 4)), 5);
    assert_eq!(origin.distance(&Vector::new(-3, -4)), 5);
    assert_eq!(Vector::new(-1, -1).distance(&Vector::new(2, 3)), 5);
    assert_eq!(origin.distance(&Vector::new(1, 1)), 1);
    assert_eq!(origin.distance(&origin), 0);
    let low = Vector::new(-MAX_COORDINATE, -MAX_COORDINATE);
    let high = Vector::new(MAX_COORDINATE, MAX_COORDINATE);
    assert_eq!(low.distance(&high), 2_828_427_124_746_190_097);
}

#[test]
fn displacements_between_points() {
    let from = Vector::new(-5, 7);
    let to = Vector::new(11, -2);
    assert_eq!(from.displacement_to(&to), Vector::new(16, -9));
    assert_eq!(to.displacement_to(&from), Vector::new(-16, 9));
}

#[test]
fn range_of_coordinates() {
    assert!(Vector::new(0, 0).is_in_range());
    assert!(Vector::new(MAX_COORDINATE, -MAX_COORDINATE).is_in_range());
    assert!(!Vector::new(MAX_COORDINATE + 1, 0).is_in_range());
    assert!(!Vector::new(0, -MAX_COORDINATE - 1).is_in_range());
    assert!(!Vector::new(i64::MIN, i64::MAX).is_in_range());
}

#[test]
fn facing_is_decided_by_the_scalar_product() {
    let east = Vector::new(1, 0);
    assert!(east.faces(&Vector::new(5, 100)));
    assert!(east.faces(&Vector::new(0, -100)));
    assert!(!east.faces(&Vector::new(-1, 100)));
    assert!(Vector::new(0, 0).faces(&Vector::new(-1, -1)));
    let corner = Vector::new(i64::MIN, i64::MIN);
    assert!(corner.faces(&corner));
    assert!(!corner.faces(&Vector::new(i64::MAX, i64::MAX)));
    assert!(corner.faces(&Vector::new(i64::MAX, i64::MIN)));
}
