use vehicle_motion::vector::Vector;
use vehicle_motion::vehicle::{
    ConfigError, Vehicle, DEFAULT_MAX_ACCELERATION, DEFAULT_MAX_BRAKING, DEFAULT_MAX_SPEED,
};

fn made(max_speed: u32, max_acceleration: u32, max_braking: u32) -> Vehicle {
    match Vehicle::new(max_speed, max_acceleration, max_braking) {
        Ok(vehicle) => vehicle,
        Err(error) => panic!("refused: {:?}", error),
    }
}

fn refusal(max_speed: u32, max_acceleration: u32, max_braking: u32) -> ConfigError {
    match Vehicle::new(max_speed, max_acceleration, max_braking) {
        Ok(_) => panic!("accepted"),
        Err(error) => error,
    }
}

#[test]
fn default_vehicle_is_at_rest_with_the_default_caps() {
    let vehicle = Vehicle::default();
    assert_eq!(vehicle.current_speed(), 0);
    assert_eq!(vehicle.max_speed(), 22_222_222);
    assert_eq!(vehicle.max_acceleration(), 6_000_000);
    assert_eq!(vehicle.max_braking(), 7_350_000);
    assert_eq!(vehicle.direction(), Vector::new(1_000_000, 0));
    assert_eq!(DEFAULT_MAX_SPEED as u64, 80 * 1_000_000_000 / 3600);
    assert_eq!(DEFAULT_MAX_ACCELERATION, 6_000_000);
    assert_eq!(DEFAULT_MAX_BRAKING, 7_350_000);
}

#[test]
fn new_vehicle_keeps_its_caps() {
    let vehicle = made(10, 20, 30);
    assert_eq!(vehicle.current_speed(), 0);
    assert_eq!(vehicle.max_speed(), 10);
    assert_eq!(vehicle.max_acceleration(), 20);
    assert_eq!(vehicle.max_braking(), 30);
    assert_eq!(vehicle.direction(), Vector::new(1_000_000, 0));
}

#[test]
fn zero_speed_cap_is_refused() {
    assert_eq!(refusal(0, 6_000_000, 7_350_000), ConfigError::ZeroMaxSpeed);
    assert_eq!(refusal(0, 0, 0), ConfigError::ZeroMaxSpeed);
}

#[test]
fn zero_acceleration_cap_is_refused() {
    assert_eq!(refusal(1, 0, 7_350_000), ConfigError::ZeroMaxAcceleration);
    assert_eq!(refusal(1, 0, 0), ConfigError::ZeroMaxAcceleration);
}

#[test]
fn zero_braking_cap_is_refused() {
    assert_eq!(refusal(1, 1, 0), ConfigError::ZeroMaxBraking);
}

#[test]
fn full_throttle_for_a_second_adds_the_acceleration_cap() {
    let mut vehicle = Vehicle::default();
    vehicle.update_speed(1_000_000, 1_000_000_000);
    assert_eq!(vehicle.current_speed(), 6_000_000);
}

#[test]
fn partial_output_scales_the_change() {
    let mut vehicle = Vehicle::default();
    // A quarter of full throttle for a sixtieth of a second.
    vehicle.update_speed(250_000, 16_666_667);
    // 250_000 * 6_000_000 * 16_666_667 / 10^15, rounded down.
    assert_eq!(vehicle.current_speed(), 25_000);
    vehicle.update_speed(1, 1_000_000_000);
    // One millionth of 6 m/s^2 for one second.
    assert_eq!(vehicle.current_speed(), 25_006);
}

#[test]
fn braking_uses_the_braking_cap() {
    let mut vehicle = Vehicle::default();
    vehicle.update_speed(1_000_000, 2_000_000_000);
    assert_eq!(vehicle.current_speed(), 12_000_000);
    vehicle.update_speed(-1_000_000, 1_000_000_000);
    assert_eq!(vehicle.current_speed(), 12_000_000 - 7_350_000);
}

#[test]
fn opposite_outputs_move_the_speed_by_their_own_caps() {
    let mut up = made(100_000_000, 6_000_000, 7_350_000);
    let mut down = made(100_000_000, 6_000_000, 7_350_000);
    up.update_speed(400_000, 500_000_000);
    down.update_speed(-400_000, 500_000_000);
    assert_eq!(up.current_speed(), 1_200_000);
    assert_eq!(down.current_speed(), -1_470_000);
    // The two changes are to each other as the two caps.
    assert_eq!(up.current_speed() * 7_350_000, -down.current_speed() * 6_000_000);

    let mut even_up = made(100_000_000, 5_000_000, 5_000_000);
    let mut even_down = made(100_000_000, 5_000_000, 5_000_000);
    even_up.update_speed(400_000, 500_000_000);
    even_down.update_speed(-400_000, 500_000_000);
    assert_eq!(even_up.current_speed(), -even_down.current_speed());
}

#[test]
fn zero_output_commands_no_change() {
    let mut vehicle = Vehicle::default();
    vehicle.update_speed(500_000, 1_000_000_000);
    assert_eq!(vehicle.current_speed(), 3_000_000);
    vehicle.update_speed(0, 1_000_000_000);
    assert_eq!(vehicle.current_speed(), 3_000_000);
    vehicle.update_speed(0, u64::MAX);
    assert_eq!(vehicle.current_speed(), 3_000_000);
}

#[test]
fn zero_duration_changes_nothing() {
    let mut vehicle = Vehicle::default();
    vehicle.update_speed(1_000_000, 0);
    assert_eq!(vehicle.current_speed(), 0);
    vehicle.update_speed(i64::MIN, 0);
    assert_eq!(vehicle.current_speed(), 0);
}

#[test]
fn speed_is_held_at_the_cap() {
    let mut vehicle = Vehicle::default();
    vehicle.update_speed(1_000_000, 10_000_000_000);
    assert_eq!(vehicle.current_speed(), 22_222_222);
    vehicle.update_speed(1_000_000, 1_000_000_000);
    assert_eq!(vehicle.current_speed(), 22_222_222);
}

#[test]
fn speed_is_held_at_the_cap_in_reverse() {
    let mut vehicle = Vehicle::default();
    vehicle.update_speed(-1_000_000, 10_000_000_000);
    assert_eq!(vehicle.current_speed(), -22_222_222);
    vehicle.update_speed(-3, 1_000_000_000_000);
    assert_eq!(vehicle.current_speed(), -22_222_222);
}

#[test]
fn speed_stays_within_the_cap_over_many_updates() {
    let mut vehicle = made(1_000_000, 6_000_000, 7_350_000);
    let outputs: [i64; 8] = [1_000_000, 2_500_000, -400_000, -9_000_000, 17, 0, -1, 800_000];
    let mut round: u64 = 0;
    while round < 200 {
        let output = outputs[(round % 8) as usize];
        vehicle.update_speed(output, 1_000_000 * (round + 1));
        assert!(vehicle.current_speed() <= 1_000_000);
        assert!(vehicle.current_speed() >= -1_000_000);
        round += 1;
    }
}

#[test]
fn extreme_outputs_and_durations_saturate() {
    let mut vehicle = made(u32::MAX, u32::MAX, u32::MAX);
    vehicle.update_speed(i64::MAX, u64::MAX);
    assert_eq!(vehicle.current_speed(), 4_294_967_295);
    vehicle.update_speed(i64::MIN, u64::MAX);
    assert_eq!(vehicle.current_speed(), -4_294_967_295);
    vehicle.update_speed(1_000_000, 1);
    // Full throttle at 4_294_967_295 for one nanosecond adds 4.29...
    assert_eq!(vehicle.current_speed(), -4_294_967_295 + 4);
    vehicle.update_speed(i64::MAX, 1);
    assert_eq!(vehicle.current_speed(), 4_294_967_295);
}

#[test]
fn small_changes_round_toward_zero() {
    let mut vehicle = Vehicle::default();
    vehicle.update_speed(1_000_000, 1_000_000_000);
    // 1 * 6_000_000 * 166_666_666 is just under 10^15.
    vehicle.update_speed(1, 166_666_666);
    assert_eq!(vehicle.current_speed(), 6_000_000);
    vehicle.update_speed(-1, 136_054_421);
    assert_eq!(vehicle.current_speed(), 6_000_000);
    vehicle.update_speed(-1, 136_054_422);
    assert_eq!(vehicle.current_speed(), 5_999_999);
}

#[test]
fn stop_takes_half_the_braking_cap() {
    let mut vehicle = Vehicle::default();
    vehicle.update_speed(1_000_000, 2_000_000_000);
    assert_eq!(vehicle.current_speed(), 12_000_000);
    vehicle.stop();
    assert_eq!(vehicle.current_speed(), 12_000_000 - 3_675_000);
    vehicle.stop();
    vehicle.stop();
    assert_eq!(vehicle.current_speed(), 12_000_000 - 3 * 3_675_000);
}

#[test]
fn stop_ends_at_rest() {
    let mut vehicle = Vehicle::default();
    vehicle.update_speed(1_000_000, 500_000_000);
    assert_eq!(vehicle.current_speed(), 3_000_000);
    vehicle.stop();
    assert_eq!(vehicle.current_speed(), 0);
    vehicle.stop();
    assert_eq!(vehicle.current_speed(), 0);
}

#[test]
fn stop_brings_a_reversing_vehicle_to_rest() {
    let mut vehicle = Vehicle::default();
    vehicle.update_speed(-1_000_000, 1_000_000_000);
    assert_eq!(vehicle.current_speed(), -7_350_000);
    vehicle.stop();
    assert_eq!(vehicle.current_speed(), 0);
}

#[test]
fn stop_with_an_odd_braking_cap_rounds_down() {
    let mut vehicle = made(100, 100, 5);
    vehicle.update_speed(1_000_000, 1_000_000_000);
    assert_eq!(vehicle.current_speed(), 100);
    vehicle.stop();
    assert_eq!(vehicle.current_speed(), 98);
}

#[test]
fn direction_can_be_set() {
    let mut vehicle = Vehicle::default();
    vehicle.update_speed(1_000_000, 1_000_000_000);
    vehicle.set_direction(Vector::new(0, -1_000_000));
    assert_eq!(vehicle.direction(), Vector::new(0, -1_000_000));
    assert_eq!(vehicle.current_speed(), 6_000_000);
    assert_eq!(vehicle.max_speed(), 22_222_222);
}
