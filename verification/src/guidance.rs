//! From a position and the next waypoint to what the controllers are fed:
//! the signed distance error for the speed loop and the bearing for the
//! heading loop.

use vstd::prelude::*;
use crate::destination::{Destination, Waypoint};
use crate::vector::{Vector, MAX_DISTANCE};

verus! {

/// What one tick hands to the controllers.
#[derive(Clone, Copy, Debug, PartialEq, Eq, Structural)]
pub struct Guidance {
    /// The signed distance error for the speed controller.
    pub error: i64,
    /// The displacement to the waypoint, for the heading controller; `None`
    /// where there is nothing to turn toward.
    pub bearing: Option<Vector>,
}

/// The waypoint lies ahead of the vehicle or abreast of it: the displacement
/// to it has no component against the heading.
pub open spec fn is_ahead(position: Vector, target: Vector, direction: Vector) -> bool {
    (target.x - position.x) * direction.x + (target.y - position.y) * direction.y >= 0
}

/// The signed distance error: the distance to the waypoint divided by
/// `scale`, negative where the waypoint lies ahead and positive where it
/// lies behind.
pub open spec fn signed_error(position: Vector, target: Vector, direction: Vector, scale: int) -> int {
    let reduced = position.distance_to(target) as int / scale;
    if is_ahead(position, target, direction) {
        -reduced
    } else {
        reduced
    }
}

/// `bearing` is the displacement from `position` to `target`, or `None`
/// where the two coincide and there is nothing to turn toward.
pub open spec fn is_bearing(position: Vector, target: Vector, bearing: Option<Vector>) -> bool {
    match bearing {
        None => target == position,
        Some(offset) => {
            &&& target != position
            &&& offset.x == target.x - position.x
            &&& offset.y == target.y - position.y
        },
    }
}

/// `guidance` is what a tick hands to the controllers for the queue
/// `pending`. With no waypoint left the error is zero, which leaves the
/// speed to the controller's own response, and there is no bearing. With a
/// waypoint at the head, the error is the signed distance error to it and
/// the bearing the displacement to it.
pub open spec fn is_guidance(
    guidance: Guidance,
    position: Vector,
    direction: Vector,
    pending: Seq<Waypoint>,
    scale: int,
) -> bool {
    if pending.len() == 0 {
        guidance == (Guidance { error: 0, bearing: None })
    } else {
        &&& guidance.error == signed_error(position, pending[0].1, direction, scale)
        &&& is_bearing(position, pending[0].1, guidance.bearing)
    }
}

/// Computes the signed distance error of a vehicle at `position` that heads
/// along `direction`, with respect to the waypoint `target`.
pub fn compute_signed_error(
    position: &Vector,
    target: &Vector,
    direction: &Vector,
    scale: u64,
) -> (error: i64)
    requires
        position.in_range(),
        target.in_range(),
        scale > 0,
    ensures
        error == signed_error(*position, *target, *direction, scale as int),
        -MAX_DISTANCE <= error <= MAX_DISTANCE,
{
    let offset: Vector = position.displacement_to(target);
    let distance: u64 = position.distance(target);
    proof {
        vstd::arithmetic::div_mod::lemma_div_nonincreasing(distance as int, scale as int);
        vstd::arithmetic::div_mod::lemma_div_pos_is_pos(distance as int, scale as int);
    }
    let reduced: i64 = (distance / scale) as i64;
    if offset.faces(direction) {
        -reduced
    } else {
        reduced
    }
}

/// Computes what a tick hands to the controllers, for a vehicle at
/// `position` that heads along `direction` and has the waypoints `dests`
/// before it.
pub fn guide(
    position: &Vector,
    direction: &Vector,
    dests: &Destination,
    scale: u64,
) -> (guidance: Guidance)
    requires
        position.in_range(),
        dests@.len() > 0 ==> dests@[0].1.in_range(),
        scale > 0,
    ensures
        is_guidance(guidance, *position, *direction, dests@, scale as int),
{
    match dests.next() {
        None => Guidance { error: 0, bearing: None },
        Some(waypoint) => {
            let target: Vector = waypoint.1;
            let error: i64 = compute_signed_error(position, &target, direction, scale);
            let bearing: Option<Vector> = if target.x == position.x && target.y == position.y {
                None
            } else {
                Some(position.displacement_to(&target))
            };
            Guidance { error, bearing }
        },
    }
}

/// The error's size is the scaled distance, whichever way the vehicle
/// heads, and its sign tells ahead from behind.
pub proof fn lemma_signed_error_sign(position: Vector, target: Vector, direction: Vector, scale: int)
    requires
        scale > 0,
    ensures
        is_ahead(position, target, direction) ==> signed_error(position, target, direction, scale)
            <= 0,
        !is_ahead(position, target, direction) ==> signed_error(position, target, direction, scale)
            >= 0,
        signed_error(position, target, direction, scale) == position.distance_to(target) as int
            / scale || signed_error(position, target, direction, scale) == -(position.distance_to(
            target,
        ) as int / scale),
{
    vstd::arithmetic::div_mod::lemma_div_pos_is_pos(position.distance_to(target) as int, scale);
}

} // verus!
