//! Turning toward a bearing at a bounded rate.
//!
//! Angles are in microradians, counter-clockwise positive.

use vstd::prelude::*;
use crate::units::{lemma_quotient_bounds, NANOS_PER_SECOND};
use crate::vector::{lemma_product_bounded, Vector};

verus! {

/// The fastest turn, in microradians per second: 0.7 radians per second.
pub const MAX_TURN_RATE: u64 = 700_000;

/// How far the heading may turn within `delta_t` nanoseconds, in whole
/// microradians.
pub open spec fn max_rotation(delta_t: int) -> int {
    MAX_TURN_RATE * delta_t / (NANOS_PER_SECOND as int)
}

/// The vector product of `direction` and `bearing`: positive where the
/// bearing lies to the left of the direction, negative where it lies to the
/// right, zero where the two are parallel.
pub open spec fn cross(direction: Vector, bearing: Vector) -> int {
    direction.x * bearing.y - direction.y * bearing.x
}

/// Whether the shorter turn from `direction` to `bearing` is
/// counter-clockwise. Where the two are parallel either turn is as short,
/// and the counter-clockwise one is taken.
pub open spec fn turns_left(direction: Vector, bearing: Vector) -> bool {
    cross(direction, bearing) >= 0
}

/// The rotation for one step: toward the bearing by the shorter way, by the
/// angle `separation` between heading and bearing, or by `max_rotation` if
/// that is less. A bearing of no length gives nothing to turn toward, and
/// the rotation is zero.
pub open spec fn limited_rotation(
    direction: Vector,
    bearing: Vector,
    separation: int,
    delta_t: int,
) -> int {
    let size = if separation <= max_rotation(delta_t) {
        separation
    } else {
        max_rotation(delta_t)
    };
    if bearing.x == 0 && bearing.y == 0 {
        0
    } else if turns_left(direction, bearing) {
        size
    } else {
        -size
    }
}

/// Computes by how much to turn a vehicle that heads along `direction`
/// within a step of `delta_t` nanoseconds, so that it turns toward
/// `bearing`, from which it is `separation` microradians away, without
/// turning faster than `MAX_TURN_RATE`.
pub fn limit_rotation(
    direction: &Vector,
    bearing: &Vector,
    separation: u64,
    delta_t: u64,
) -> (rotation: i64)
    ensures
        rotation == limited_rotation(*direction, *bearing, separation as int, delta_t as int),
{
    proof {
        assert(MAX_TURN_RATE * delta_t == 700_000 * delta_t);
        lemma_quotient_bounds(MAX_TURN_RATE * delta_t, NANOS_PER_SECOND as int);
    }
    let most: u128 = MAX_TURN_RATE as u128 * delta_t as u128 / NANOS_PER_SECOND as u128;
    let size: i64 = if separation as u128 <= most {
        separation as i64
    } else {
        most as i64
    };
    proof {
        lemma_product_bounded(direction.x as int, bearing.y as int);
        lemma_product_bounded(direction.y as int, bearing.x as int);
    }
    let left: i128 = direction.x as i128 * bearing.y as i128;
    let right: i128 = direction.y as i128 * bearing.x as i128;
    if bearing.x == 0 && bearing.y == 0 {
        0
    } else if left >= right {
        size
    } else {
        -size
    }
}

/// The heading never turns faster than `MAX_TURN_RATE`: the rotation of one
/// step, in microradians, times the nanoseconds in a second is at most the
/// rate times the nanoseconds of the step. Nor does it turn past the
/// bearing.
pub proof fn lemma_rotation_rate_limited(
    direction: Vector,
    bearing: Vector,
    separation: int,
    delta_t: int,
)
    requires
        0 <= separation,
        0 <= delta_t,
    ensures
        -(MAX_TURN_RATE * delta_t) <= limited_rotation(direction, bearing, separation, delta_t)
            * NANOS_PER_SECOND <= MAX_TURN_RATE * delta_t,
        -separation <= limited_rotation(direction, bearing, separation, delta_t) <= separation,
{
    lemma_quotient_bounds(MAX_TURN_RATE * delta_t, NANOS_PER_SECOND as int);
}

/// The heading turns the shorter way: counter-clockwise only if the bearing
/// lies to the left or straight behind, clockwise only if it lies to the
/// right.
pub proof fn lemma_rotation_takes_shorter_way(
    direction: Vector,
    bearing: Vector,
    separation: int,
    delta_t: int,
)
    requires
        0 <= separation,
        0 <= delta_t,
    ensures
        limited_rotation(direction, bearing, separation, delta_t) > 0 ==> cross(direction, bearing)
            >= 0,
        limited_rotation(direction, bearing, separation, delta_t) < 0 ==> cross(direction, bearing)
            < 0,
        limited_rotation(direction, bearing, separation, delta_t) == 0 ==> separation == 0
            || max_rotation(delta_t) == 0 || (bearing.x == 0 && bearing.y == 0),
        bearing.x == 0 && bearing.y == 0 ==> limited_rotation(
            direction,
            bearing,
            separation,
            delta_t,
        ) == 0,
{
    lemma_quotient_bounds(MAX_TURN_RATE * delta_t, NANOS_PER_SECOND as int);
}

} // verus!
