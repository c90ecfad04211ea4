use vehicle_motion::destination::Destination;
use vehicle_motion::guidance::{compute_signed_error, guide, Guidance};
use vehicle_motion::vector::{Vector, MAX_COORDINATE};
use vehicle_motion::vehicle::Vehicle;

const EAST: Vector = Vector { x: 1_000_000, y: 0 };

#[test]
fn a_waypoint_ahead_gives_a_negative_error() {
    let here = Vector::new(0, 0);
    let there = Vector::new(3_000_000, 4_000_000);
    assert_eq!(compute_signed_error(&here, &there, &EAST, 1), -5_000_000);
    assert_eq!(compute_signed_error(&here, &there, &EAST, 5), -1_000_000);
}

#[test]
fn a_waypoint_behind_gives_a_positive_error() {
    let here = Vector::new(0, 0);
    let there = Vector::new(-3_000_000, 4_000_000);
    assert_eq!(compute_signed_error(&here, &there, &EAST, 1), 5_000_000);
    assert_eq!(compute_signed_error(&here, &there, &EAST, 5), 1_000_000);
}

#[test]
fn a_waypoint_abreast_counts_as_ahead() {
    let here = Vector::new(1_000, 1_000);
    let there = Vector::new(1_000, 8_000);
    assert_eq!(compute_signed_error(&here, &there, &EAST, 1), -7_000);
    assert_eq!(compute_signed_error(&here, &there, &Vector::new(0, 0), 1), -7_000);
}

#[test]
fn the_error_is_the_distance_over_the_scale_rounded_down() {
    let here = Vector::new(0, 0);
    // The distance is the square root of two million million, 1_414_213.56...
    let there = Vector::new(1_000_000, 1_000_000);
    assert_eq!(compute_signed_error(&here, &there, &EAST, 1), -1_414_213);
    assert_eq!(compute_signed_error(&here, &there, &EAST, 5), -282_842);
    assert_eq!(compute_signed_error(&here, &there, &EAST, 2_000_000), 0);
    assert_eq!(compute_signed_error(&there, &here, &EAST, 5), 282_842);
}

#[test]
fn the_error_across_the_whole_range() {
    let low = Vector::new(-MAX_COORDINATE, -MAX_COORDINATE);
    let high = Vector::new(MAX_COORDINATE, MAX_COORDINATE);
    assert_eq!(compute_signed_error(&low, &high, &EAST, 1), -2_828_427_124_746_190_097);
    assert_eq!(compute_signed_error(&high, &low, &EAST, 1), 2_828_427_124_746_190_097);
    assert_eq!(
        compute_signed_error(&low, &high, &Vector::new(i64::MIN, i64::MIN), u64::MAX),
        0
    );
}

#[test]
fn an_empty_queue_gives_no_error_and_no_bearing() {
    let queue = Destination::new();
    let guidance = guide(&Vector::new(5, 5), &EAST, &queue, 5);
    assert_eq!(guidance, Guidance { error: 0, bearing: None });
}

#[test]
fn guidance_follows_the_head_of_the_queue() {
    let mut queue = Destination::new();
    queue.push(1, Vector::new(30_000_000, 40_000_000));
    queue.push(2, Vector::new(-1, -1));
    let guidance = guide(&Vector::new(0, 0), &EAST, &queue, 5);
    assert_eq!(guidance.error, -10_000_000);
    assert_eq!(guidance.bearing, Some(Vector::new(30_000_000, 40_000_000)));

    assert!(queue.pop_if_matches(1));
    let guidance = guide(&Vector::new(2, 3), &EAST, &queue, 1);
    assert_eq!(guidance.error, 5);
    assert_eq!(guidance.bearing, Some(Vector::new(-3, -4)));
}

#[test]
fn a_waypoint_under_the_vehicle_gives_no_bearing() {
    let mut queue = Destination::new();
    queue.push(1, Vector::new(12, -7));
    let guidance = guide(&Vector::new(12, -7), &EAST, &queue, 5);
    assert_eq!(guidance, Guidance { error: 0, bearing: None });
}

#[test]
fn a_vehicle_is_guided_along_its_own_heading() {
    let mut queue = Destination::new();
    queue.push(1, Vector::new(0, 50_000_000));
    let mut vehicle = Vehicle::default();
    let here = Vector::new(0, 0);
    let guidance = vehicle.guidance(&here, &queue, 5);
    assert_eq!(guidance.error, -10_000_000);
    assert_eq!(guidance.bearing, Some(Vector::new(0, 50_000_000)));

    vehicle.set_direction(Vector::new(0, -1_000_000));
    let guidance = vehicle.guidance(&here, &queue, 5);
    assert_eq!(guidance.error, 10_000_000);
    assert_eq!(guidance.bearing, Some(Vector::new(0, 50_000_000)));
}

#[test]
fn an_idle_vehicle_coasts_down_without_reversing_hard() {
    let queue = Destination::new();
    assert!(queue.next().is_none());
    let mut vehicle = Vehicle::default();
    vehicle.update_speed(1_000_000, 1_000_000_000);
    assert_eq!(vehicle.current_speed(), 6_000_000);

    let here = Vector::new(0, 0);
    let tick: u64 = 16_666_667;
    // The braking cap for one tick: 7_350_000 * 16_666_667 / 10^9.
    let most: i64 = 122_500;
    let outputs: [i64; 5] = [-1_000_000, -600_000, -1, 0, -250_000];
    let mut round: usize = 0;
    while round < 100 {
        let guidance = vehicle.guidance(&here, &queue, 5);
        assert_eq!(guidance, Guidance { error: 0, bearing: None });
        let before = vehicle.current_speed();
        vehicle.update_speed(outputs[round % 5], tick);
        let after = vehicle.current_speed();
        assert!(after <= before);
        assert!(after >= before - most);
        round += 1;
    }
    assert_eq!(vehicle.current_speed(), 6_000_000 - 20 * (122_500 + 73_500 + 0 + 0 + 30_625));
}
