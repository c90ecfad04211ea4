//! How soon a distance can be covered under a speed cap and an acceleration
//! cap.
//!
//! Speeds are in micrometres per second, the acceleration in micrometres per
//! second squared, the distance in micrometres and the answer in whole
//! nanoseconds, rounded down.

use vstd::prelude::*;
use crate::root::{
    is_sqrt_floor, isqrt, lemma_sqrt_floor, lemma_sqrt_floor_bounded, lemma_sqrt_floor_monotonic,
    lemma_sqrt_floor_of_square, lemma_square_monotonic, sqrt_floor,
};
use crate::units::{lemma_quotient_bounds, lemma_quotient_from_bounds, NANOS_PER_SECOND};

verus! {

/// The speeds and the acceleration describe a vehicle that can move: the
/// current speed lies between rest and the cap, and both caps are positive.
pub open spec fn valid_profile(current_speed: int, max_speed: int, max_acceleration: int) -> bool {
    &&& 0 <= current_speed <= max_speed
    &&& 0 < max_speed
    &&& 0 < max_acceleration
}

/// The square of the speed at which the vehicle arrives if it accelerates
/// all the way: `v^2 = current_speed^2 + 2 * max_acceleration * distance`.
pub open spec fn arrival_speed_squared(
    current_speed: int,
    max_acceleration: int,
    distance: int,
) -> int {
    current_speed * current_speed + 2 * max_acceleration * distance
}

/// The distance is covered before the speed cap is reached, so that the
/// vehicle accelerates all the way: it arrives no faster than the cap. This
/// holds of the distances up to
/// `(max_speed^2 - current_speed^2) / (2 * max_acceleration)`.
pub open spec fn cap_not_reached(
    current_speed: int,
    max_speed: int,
    max_acceleration: int,
    distance: int,
) -> bool {
    arrival_speed_squared(current_speed, max_acceleration, distance) <= max_speed * max_speed
}

/// Twice the distance covered in `t` nanoseconds of full acceleration from
/// `current_speed`, in units of 10^-18 micrometres:
/// `2 * 10^18 * (current_speed * s + max_acceleration * s^2 / 2)` for
/// `s = t / 10^9` seconds.
pub open spec fn accelerated_reach(current_speed: int, max_acceleration: int, t: int) -> int {
    2 * NANOS_PER_SECOND * current_speed * t + max_acceleration * t * t
}

/// Arrival time while accelerating all the way: the positive root of
/// `distance = current_speed * s + max_acceleration * s^2 / 2`, which is
/// `(sqrt(current_speed^2 + 2 * max_acceleration * distance) - current_speed) / max_acceleration`
/// seconds, in whole nanoseconds.
pub open spec fn accelerating_time(current_speed: int, max_acceleration: int, distance: int) -> int {
    (sqrt_floor(
        (NANOS_PER_SECOND * NANOS_PER_SECOND * arrival_speed_squared(
            current_speed,
            max_acceleration,
            distance,
        )) as nat,
    ) - NANOS_PER_SECOND * current_speed) / max_acceleration
}

/// Arrival time when the cap is reached on the way: the time to reach the
/// cap plus the rest of the distance at `max_speed`, which comes to
/// `(2 * max_acceleration * distance + (max_speed - current_speed)^2) / (2 * max_acceleration * max_speed)`
/// seconds, in whole nanoseconds.
pub open spec fn cruising_time(
    current_speed: int,
    max_speed: int,
    max_acceleration: int,
    distance: int,
) -> int {
    NANOS_PER_SECOND * (2 * max_acceleration * distance + (max_speed - current_speed) * (max_speed
        - current_speed)) / (2 * max_acceleration * max_speed)
}

/// The earliest arrival time over `distance`, in whole nanoseconds.
pub open spec fn arrival_time(
    current_speed: int,
    max_speed: int,
    max_acceleration: int,
    distance: int,
) -> int {
    if cap_not_reached(current_speed, max_speed, max_acceleration, distance) {
        accelerating_time(current_speed, max_acceleration, distance)
    } else {
        cruising_time(current_speed, max_speed, max_acceleration, distance)
    }
}

/// Computes the earliest arrival time over `distance` micrometres, in whole
/// nanoseconds, for a vehicle now at `current_speed` that accelerates at
/// `max_acceleration` until it reaches `max_speed`.
pub fn earliest_arrival_time(
    current_speed: u32,
    max_speed: u32,
    max_acceleration: u32,
    distance: u64,
) -> (t: u128)
    requires
        valid_profile(current_speed as int, max_speed as int, max_acceleration as int),
    ensures
        t == arrival_time(
            current_speed as int,
            max_speed as int,
            max_acceleration as int,
            distance as int,
        ),
        distance == 0 ==> t == 0,
{
    proof {
        lemma_arrival_time_at_zero(
            current_speed as int,
            max_speed as int,
            max_acceleration as int,
        );
    }
    let second: u128 = NANOS_PER_SECOND as u128;
    let cs: u128 = current_speed as u128;
    let ms: u128 = max_speed as u128;
    let ma: u128 = max_acceleration as u128;
    let d: u128 = distance as u128;
    proof {
        lemma_square_monotonic(cs as int, ms as int);
        assert(ms * ms <= 0xffff_ffff * 0xffff_ffff) by (nonlinear_arith)
            requires
                0 <= ms <= 0xffff_ffff,
        ;
        assert(2 * ma * d <= 2 * 0xffff_ffff * 0xffff_ffff_ffff_ffff) by (nonlinear_arith)
            requires
                0 <= ma <= 0xffff_ffff,
                0 <= d <= 0xffff_ffff_ffff_ffff,
        ;
        assert(2 * ma * ms <= 2 * 0xffff_ffff * 0xffff_ffff) by (nonlinear_arith)
            requires
                0 <= ma <= 0xffff_ffff,
                0 <= ms <= 0xffff_ffff,
        ;
        assert(2 * ma * ms > 0) by (nonlinear_arith)
            requires
                0 < ma,
                0 < ms,
        ;
    }
    let gain: u128 = 2 * ma * d;
    let gap: u128 = ms * ms - cs * cs;
    if gain <= gap {
        let radicand: u128 = second * second * (cs * cs + gain);
        let root: u128 = isqrt(radicand) as u128;
        proof {
            // The root is at least `second * cs`, whose square the radicand holds.
            assert((second * cs) * (second * cs) <= radicand) by (nonlinear_arith)
                requires
                    radicand == second * second * (cs * cs + gain),
                    gain >= 0,
                    second >= 0,
            ;
            if root < second * cs {
                lemma_square_monotonic(root as int + 1, (second * cs) as int);
            }
        }
        (root - second * cs) / ma
    } else {
        let slack: u128 = ms - cs;
        proof {
            assert(slack * slack <= 0xffff_ffff * 0xffff_ffff) by (nonlinear_arith)
                requires
                    0 <= slack <= 0xffff_ffff,
            ;
        }
        second * (gain + slack * slack) / (2 * ma * ms)
    }
}

/// While the vehicle accelerates all the way, the computed time is the last
/// whole nanosecond at which it has not yet passed the distance: its reach
/// at that time is within the distance, and one nanosecond later beyond it.
pub proof fn lemma_accelerating_time_brackets(
    current_speed: int,
    max_acceleration: int,
    distance: int,
)
    requires
        0 <= current_speed,
        0 < max_acceleration,
        0 <= distance,
    ensures
        0 <= accelerating_time(current_speed, max_acceleration, distance),
        accelerated_reach(
            current_speed,
            max_acceleration,
            accelerating_time(current_speed, max_acceleration, distance),
        ) <= 2 * NANOS_PER_SECOND * NANOS_PER_SECOND * distance,
        2 * NANOS_PER_SECOND * NANOS_PER_SECOND * distance < accelerated_reach(
            current_speed,
            max_acceleration,
            accelerating_time(current_speed, max_acceleration, distance) + 1,
        ),
{
    let r: int = NANOS_PER_SECOND as int;
    let cs = current_speed;
    let ma = max_acceleration;
    let d = distance;
    let x: int = cs * cs + 2 * ma * d;
    assert(0 <= 2 * ma * d) by (nonlinear_arith)
        requires
            0 < ma,
            0 <= d,
    ;
    assert(0 <= cs * cs) by (nonlinear_arith);
    assert(0 <= r * r * x) by (nonlinear_arith)
        requires
            0 <= x,
    ;
    let y: int = r * r * x;
    let s: int = sqrt_floor(y as nat) as int;
    lemma_sqrt_floor(y as nat);
    let base: int = r * cs;
    assert(base * base <= y) by (nonlinear_arith)
        requires
            base == r * cs,
            y == r * r * x,
            x == cs * cs + 2 * ma * d,
            0 <= 2 * ma * d,
            0 <= r,
    ;
    assert(0 <= base) by (nonlinear_arith)
        requires
            base == r * cs,
            0 <= r,
            0 <= cs,
    ;
    if s < base {
        lemma_square_monotonic(s + 1, base);
    }
    let t: int = (s - base) / ma;
    assert(t == accelerating_time(cs, ma, d));
    lemma_quotient_bounds(s - base, ma);
    assert(0 <= t) by (nonlinear_arith)
        requires
            0 < ma,
            0 <= s - base < ma * t + ma,
    ;
    let u: int = base + ma * t;
    let w: int = base + ma * (t + 1);
    assert(0 <= u <= s) by (nonlinear_arith)
        requires
            u == base + ma * t,
            ma * t <= s - base,
            0 <= base,
            0 < ma,
            0 <= t,
    ;
    assert(s + 1 <= w) by (nonlinear_arith)
        requires
            w == base + ma * (t + 1),
            s - base < ma * t + ma,
    ;
    lemma_square_monotonic(u, s);
    lemma_square_monotonic(s + 1, w);
    // Both squares are `base^2` plus `ma` times a reach.
    assert(u * u == base * base + ma * accelerated_reach(cs, ma, t)) by (nonlinear_arith)
        requires
            u == base + ma * t,
            base == r * cs,
            accelerated_reach(cs, ma, t) == 2 * r * cs * t + ma * t * t,
    ;
    assert(w * w == base * base + ma * accelerated_reach(cs, ma, t + 1)) by (nonlinear_arith)
        requires
            w == base + ma * (t + 1),
            base == r * cs,
            accelerated_reach(cs, ma, t + 1) == 2 * r * cs * (t + 1) + ma * (t + 1) * (t + 1),
    ;
    assert(y == base * base + ma * (2 * r * r * d)) by (nonlinear_arith)
        requires
            y == r * r * x,
            x == cs * cs + 2 * ma * d,
            base == r * cs,
    ;
    let low: int = accelerated_reach(cs, ma, t);
    let high: int = accelerated_reach(cs, ma, t + 1);
    let goal: int = 2 * r * r * d;
    assert(low <= goal) by (nonlinear_arith)
        requires
            0 < ma,
            ma * low <= ma * goal,
    ;
    assert(goal < high) by (nonlinear_arith)
        requires
            0 < ma,
            ma * goal < ma * high,
    ;
}

/// When the cap is reached on the way, the computed time is the exact time
/// rounded down to whole nanoseconds.
pub proof fn lemma_cruising_time_brackets(
    current_speed: int,
    max_speed: int,
    max_acceleration: int,
    distance: int,
)
    requires
        valid_profile(current_speed, max_speed, max_acceleration),
        0 <= distance,
    ensures
        0 <= cruising_time(current_speed, max_speed, max_acceleration, distance),
        2 * max_acceleration * max_speed * cruising_time(
            current_speed,
            max_speed,
            max_acceleration,
            distance,
        ) <= NANOS_PER_SECOND * (2 * max_acceleration * distance + (max_speed - current_speed) * (
        max_speed - current_speed)),
        NANOS_PER_SECOND * (2 * max_acceleration * distance + (max_speed - current_speed) * (
        max_speed - current_speed)) < 2 * max_acceleration * max_speed * (cruising_time(
            current_speed,
            max_speed,
            max_acceleration,
            distance,
        ) + 1),
{
    let r: int = NANOS_PER_SECOND as int;
    let n: int = 2 * max_acceleration * distance + (max_speed - current_speed) * (max_speed
        - current_speed);
    let q: int = 2 * max_acceleration * max_speed;
    assert(0 < q) by (nonlinear_arith)
        requires
            q == 2 * max_acceleration * max_speed,
            0 < max_acceleration,
            0 < max_speed,
    ;
    assert(0 <= n) by (nonlinear_arith)
        requires
            n == 2 * max_acceleration * distance + (max_speed - current_speed) * (max_speed
                - current_speed),
            0 < max_acceleration,
            0 <= distance,
    ;
    lemma_quotient_bounds(r * n, q);
    let t: int = (r * n) / q;
    assert(t == cruising_time(current_speed, max_speed, max_acceleration, distance));
    assert(0 <= t) by (nonlinear_arith)
        requires
            0 < q,
            0 <= n,
            r == 1_000_000_000,
            r * n < q * t + q,
    ;
    assert(q * (t + 1) == q * t + q) by (nonlinear_arith);
}

/// A distance of zero takes no time.
pub proof fn lemma_arrival_time_at_zero(current_speed: int, max_speed: int, max_acceleration: int)
    requires
        valid_profile(current_speed, max_speed, max_acceleration),
    ensures
        arrival_time(current_speed, max_speed, max_acceleration, 0) == 0,
{
    let r: int = NANOS_PER_SECOND as int;
    lemma_square_monotonic(current_speed, max_speed);
    assert(2 * max_acceleration * 0 == 0);
    assert(cap_not_reached(current_speed, max_speed, max_acceleration, 0));
    let base: int = r * current_speed;
    assert(0 <= base) by (nonlinear_arith)
        requires
            base == r * current_speed,
            r == 1_000_000_000,
            0 <= current_speed,
    ;
    assert(r * r * (current_speed * current_speed + 2 * max_acceleration * 0) == base * base)
        by (nonlinear_arith)
        requires
            base == r * current_speed,
    ;
    lemma_sqrt_floor_of_square(base as nat);
    assert(0int / max_acceleration == 0) by (nonlinear_arith)
        requires
            0 < max_acceleration,
    ;
}

/// The two ways of computing the arrival time agree where they meet: at the
/// distance over which full acceleration just reaches the cap.
pub proof fn lemma_arrival_time_continuous(
    current_speed: int,
    max_speed: int,
    max_acceleration: int,
    distance: int,
)
    requires
        valid_profile(current_speed, max_speed, max_acceleration),
        2 * max_acceleration * distance == max_speed * max_speed - current_speed * current_speed,
    ensures
        accelerating_time(current_speed, max_acceleration, distance) == cruising_time(
            current_speed,
            max_speed,
            max_acceleration,
            distance,
        ),
{
    let r: int = NANOS_PER_SECOND as int;
    let cs = current_speed;
    let ms = max_speed;
    let ma = max_acceleration;
    let top: int = r * ms;
    assert(0 <= top) by (nonlinear_arith)
        requires
            top == r * ms,
            r == 1_000_000_000,
            0 < ms,
    ;
    assert(r * r * (cs * cs + 2 * ma * distance) == top * top) by (nonlinear_arith)
        requires
            top == r * ms,
            2 * ma * distance == ms * ms - cs * cs,
    ;
    lemma_sqrt_floor_of_square(top as nat);
    // Accelerating all the way takes `r * (ms - cs) / ma`.
    let num: int = r * (ms - cs);
    assert(top - r * cs == num) by (nonlinear_arith)
        requires
            top == r * ms,
            num == r * (ms - cs),
    ;
    assert(accelerating_time(cs, ma, distance) == num / ma);
    // So does cruising: numerator and denominator share the factor `2 * ms`.
    let common: int = 2 * ms;
    assert(r * (2 * ma * distance + (ms - cs) * (ms - cs)) == num * common) by (nonlinear_arith)
        requires
            num == r * (ms - cs),
            common == 2 * ms,
            2 * ma * distance == ms * ms - cs * cs,
    ;
    assert(2 * ma * ms == common * ma) by (nonlinear_arith)
        requires
            common == 2 * ms,
    ;
    assert(0 <= num) by (nonlinear_arith)
        requires
            num == r * (ms - cs),
            r == 1_000_000_000,
            cs <= ms,
    ;
    vstd::arithmetic::div_mod::lemma_div_denominator(num * common, common, ma);
    vstd::arithmetic::div_mod::lemma_div_by_multiple(num, common);
}

/// What the proofs below need of the root in `accelerating_time`: it is the
/// rounded-down root of the scaled square of the arrival speed, it is at
/// least the scaled current speed, and at most the scaled cap while the cap
/// is not reached.
proof fn lemma_scaled_root(current_speed: int, max_speed: int, max_acceleration: int, distance: int)
    requires
        valid_profile(current_speed, max_speed, max_acceleration),
        0 <= distance,
    ensures
        0 <= NANOS_PER_SECOND * NANOS_PER_SECOND * arrival_speed_squared(
            current_speed,
            max_acceleration,
            distance,
        ),
        is_sqrt_floor(
            NANOS_PER_SECOND * NANOS_PER_SECOND * arrival_speed_squared(
                current_speed,
                max_acceleration,
                distance,
            ),
            sqrt_floor(
                (NANOS_PER_SECOND * NANOS_PER_SECOND * arrival_speed_squared(
                    current_speed,
                    max_acceleration,
                    distance,
                )) as nat,
            ) as int,
        ),
        NANOS_PER_SECOND * current_speed <= sqrt_floor(
            (NANOS_PER_SECOND * NANOS_PER_SECOND * arrival_speed_squared(
                current_speed,
                max_acceleration,
                distance,
            )) as nat,
        ),
        cap_not_reached(current_speed, max_speed, max_acceleration, distance) ==> sqrt_floor(
            (NANOS_PER_SECOND * NANOS_PER_SECOND * arrival_speed_squared(
                current_speed,
                max_acceleration,
                distance,
            )) as nat,
        ) <= NANOS_PER_SECOND * max_speed,
{
    let r: int = NANOS_PER_SECOND as int;
    let x: int = arrival_speed_squared(current_speed, max_acceleration, distance);
    assert(current_speed * current_speed <= x) by (nonlinear_arith)
        requires
            x == current_speed * current_speed + 2 * max_acceleration * distance,
            0 < max_acceleration,
            0 <= distance,
    ;
    assert(0 <= current_speed * current_speed) by (nonlinear_arith);
    let y: int = r * r * x;
    let base: int = r * current_speed;
    let top: int = r * max_speed;
    assert(0 <= base * base <= y) by (nonlinear_arith)
        requires
            base == r * current_speed,
            y == r * r * x,
            current_speed * current_speed <= x,
    ;
    assert(0 <= base <= top) by (nonlinear_arith)
        requires
            base == r * current_speed,
            top == r * max_speed,
            r == 1_000_000_000,
            0 <= current_speed <= max_speed,
    ;
    lemma_sqrt_floor(y as nat);
    let s: int = sqrt_floor(y as nat) as int;
    if s < base {
        lemma_square_monotonic(s + 1, base);
    }
    if cap_not_reached(current_speed, max_speed, max_acceleration, distance) {
        assert(y <= top * top) by (nonlinear_arith)
            requires
                y == r * r * x,
                top == r * max_speed,
                x <= max_speed * max_speed,
        ;
        lemma_sqrt_floor_bounded(y, s, top);
    }
}

/// The arrival time never decreases as the distance grows.
pub proof fn lemma_arrival_time_nondecreasing(
    current_speed: int,
    max_speed: int,
    max_acceleration: int,
    nearer: int,
    farther: int,
)
    requires
        valid_profile(current_speed, max_speed, max_acceleration),
        0 <= nearer <= farther,
    ensures
        arrival_time(current_speed, max_speed, max_acceleration, nearer) <= arrival_time(
            current_speed,
            max_speed,
            max_acceleration,
            farther,
        ),
{
    let r: int = NANOS_PER_SECOND as int;
    let cs = current_speed;
    let ms = max_speed;
    let ma = max_acceleration;
    let t1: int = arrival_time(cs, ms, ma, nearer);
    let t2: int = arrival_time(cs, ms, ma, farther);
    let q: int = 2 * ma * ms;
    let n1: int = 2 * ma * nearer + (ms - cs) * (ms - cs);
    let n2: int = 2 * ma * farther + (ms - cs) * (ms - cs);
    let x1: int = arrival_speed_squared(cs, ma, nearer);
    let x2: int = arrival_speed_squared(cs, ma, farther);
    assert(0 < q) by (nonlinear_arith)
        requires
            q == 2 * ma * ms,
            0 < ma,
            0 < ms,
    ;
    assert(x1 <= x2 && r * n1 <= r * n2) by (nonlinear_arith)
        requires
            x1 == cs * cs + 2 * ma * nearer,
            x2 == cs * cs + 2 * ma * farther,
            n1 == 2 * ma * nearer + (ms - cs) * (ms - cs),
            n2 == 2 * ma * farther + (ms - cs) * (ms - cs),
            nearer <= farther,
            0 < ma,
            r == 1_000_000_000,
    ;
    if cap_not_reached(cs, ms, ma, farther) {
        lemma_scaled_root(cs, ms, ma, nearer);
        lemma_scaled_root(cs, ms, ma, farther);
        assert(r * r * x1 <= r * r * x2) by (nonlinear_arith)
            requires
                x1 <= x2,
        ;
        lemma_sqrt_floor_monotonic((r * r * x1) as nat, (r * r * x2) as nat);
        vstd::arithmetic::div_mod::lemma_div_is_ordered(
            sqrt_floor((r * r * x1) as nat) - r * cs,
            sqrt_floor((r * r * x2) as nat) - r * cs,
            ma,
        );
    } else if cap_not_reached(cs, ms, ma, nearer) {
        lemma_cruising_bounds_accelerating(cs, ms, ma, nearer);
        lemma_cruising_time_brackets(cs, ms, ma, farther);
        assert(t1 <= t2) by (nonlinear_arith)
            requires
                0 < q,
                q * t1 <= r * n1,
                r * n1 <= r * n2,
                r * n2 < q * (t2 + 1),
        ;
    } else {
        vstd::arithmetic::div_mod::lemma_div_is_ordered(r * n1, r * n2, q);
    }
}

/// The cruising formula is the tangent, at the cap, of the accelerating
/// one, and lies on or above it: the time of full acceleration over a
/// distance, in whole nanoseconds, is within the cruising time over it.
proof fn lemma_cruising_bounds_accelerating(
    current_speed: int,
    max_speed: int,
    max_acceleration: int,
    distance: int,
)
    requires
        valid_profile(current_speed, max_speed, max_acceleration),
        0 <= distance,
    ensures
        2 * max_acceleration * max_speed * accelerating_time(
            current_speed,
            max_acceleration,
            distance,
        ) <= NANOS_PER_SECOND * (2 * max_acceleration * distance + (max_speed - current_speed) * (
        max_speed - current_speed)),
{
    let r: int = NANOS_PER_SECOND as int;
    let cs = current_speed;
    let ms = max_speed;
    let ma = max_acceleration;
    let t1: int = accelerating_time(cs, ma, distance);
    let q: int = 2 * ma * ms;
    let n1: int = 2 * ma * distance + (ms - cs) * (ms - cs);
    lemma_accelerating_time_brackets(cs, ma, distance);
    let a: int = ma * t1;
    let b: int = r * (ms - cs);
    let gap: int = a - b;
    let m1: int = r * ms * a;
    let m2: int = r * cs * a;
    assert(0 <= gap * gap) by (nonlinear_arith);
    assert(gap * gap == a * a - 2 * (a * b) + b * b) by (nonlinear_arith)
        requires
            gap == a - b,
    ;
    assert(a * b == m1 - m2) by (nonlinear_arith)
        requires
            b == r * (ms - cs),
            m1 == r * ms * a,
            m2 == r * cs * a,
    ;
    assert(r * q * t1 == 2 * m1) by (nonlinear_arith)
        requires
            q == 2 * ma * ms,
            a == ma * t1,
            m1 == r * ms * a,
    ;
    assert(ma * accelerated_reach(cs, ma, t1) == 2 * m2 + a * a) by (nonlinear_arith)
        requires
            accelerated_reach(cs, ma, t1) == 2 * r * cs * t1 + ma * t1 * t1,
            a == ma * t1,
            m2 == r * cs * a,
    ;
    assert(r * r * (ms - cs) * (ms - cs) == b * b) by (nonlinear_arith)
        requires
            b == r * (ms - cs),
    ;
    assert(ma * accelerated_reach(cs, ma, t1) <= ma * (2 * r * r * distance)) by (nonlinear_arith)
        requires
            0 < ma,
            accelerated_reach(cs, ma, t1) <= 2 * r * r * distance,
    ;
    assert(ma * (2 * r * r * distance) + r * r * (ms - cs) * (ms - cs) == r * (r * n1))
        by (nonlinear_arith)
        requires
            n1 == 2 * ma * distance + (ms - cs) * (ms - cs),
    ;
    assert(q * t1 <= r * n1) by (nonlinear_arith)
        requires
            r * q * t1 <= r * (r * n1),
            r == 1_000_000_000,
    ;
}

/// While the cap is not reached, one more micrometre takes the scaled root
/// at least `max_acceleration` further, if the cap is at most one
/// micrometre per nanosecond.
proof fn lemma_root_gains(s1: int, s2: int, y1: int, y2: int, top: int, max_acceleration: int)
    requires
        is_sqrt_floor(y1, s1),
        is_sqrt_floor(y2, s2),
        0 < max_acceleration,
        y1 + 2 * NANOS_PER_SECOND * NANOS_PER_SECOND * max_acceleration <= y2 <= top * top,
        0 <= top <= NANOS_PER_SECOND * NANOS_PER_SECOND,
    ensures
        s1 + max_acceleration <= s2,
{
    let r: int = NANOS_PER_SECOND as int;
    let ma = max_acceleration;
    assert(0 <= 2 * r * r * ma) by (nonlinear_arith)
        requires
            0 < ma,
    ;
    if s2 < s1 {
        lemma_square_monotonic(s2 + 1, s1);
    }
    lemma_sqrt_floor_bounded(y2, s2, top);
    assert(r * r == 1_000_000_000_000_000_000) by (nonlinear_arith)
        requires
            r == 1_000_000_000,
    ;
    if s2 + 1 <= s1 + ma {
        let g: int = s2 + 1 - s1;
        let sum: int = s2 + 1 + s1;
        assert((s2 + 1) * (s2 + 1) - s1 * s1 == g * sum) by (nonlinear_arith)
            requires
                g == s2 + 1 - s1,
                sum == s2 + 1 + s1,
        ;
        // The two squares bracket the gain of the radicand.
        assert(2 * r * r * ma < g * sum);
        if s1 < s2 {
            assert(g * sum <= ma * (2 * r * r)) by (nonlinear_arith)
                requires
                    1 <= g <= ma,
                    0 <= sum <= 2 * r * r,
            ;
            assert(ma * (2 * r * r) == 2 * r * r * ma) by (nonlinear_arith);
            assert(false);
        } else {
            assert(g == 1);
            assert(g * sum == sum) by (nonlinear_arith)
                requires
                    g == 1,
            ;
            assert(2 * r * r <= 2 * r * r * ma) by (nonlinear_arith)
                requires
                    1 <= ma,
            ;
            // Then the root sits at the cap, and the nearer root below it.
            assert(s2 == top && top == r * r);
            assert(top * top <= s2 * s2);
            assert(y1 < top * top);
            if top <= s1 {
                lemma_square_monotonic(top, s1);
            }
            assert(false);
        }
    }
}

/// The arrival time is strictly increasing in the distance, as long as the
/// clock can tell one micrometre from the next: the speed cap is at most one
/// micrometre per nanosecond.
pub proof fn lemma_arrival_time_strictly_increasing(
    current_speed: int,
    max_speed: int,
    max_acceleration: int,
    nearer: int,
    farther: int,
)
    requires
        valid_profile(current_speed, max_speed, max_acceleration),
        max_speed <= NANOS_PER_SECOND,
        0 <= nearer < farther,
    ensures
        arrival_time(current_speed, max_speed, max_acceleration, nearer) < arrival_time(
            current_speed,
            max_speed,
            max_acceleration,
            farther,
        ),
{
    let r: int = NANOS_PER_SECOND as int;
    let cs = current_speed;
    let ms = max_speed;
    let ma = max_acceleration;
    let t1: int = arrival_time(cs, ms, ma, nearer);
    let t2: int = arrival_time(cs, ms, ma, farther);
    let q: int = 2 * ma * ms;
    let n1: int = 2 * ma * nearer + (ms - cs) * (ms - cs);
    let n2: int = 2 * ma * farther + (ms - cs) * (ms - cs);
    let x1: int = arrival_speed_squared(cs, ma, nearer);
    let x2: int = arrival_speed_squared(cs, ma, farther);
    assert(0 < q) by (nonlinear_arith)
        requires
            q == 2 * ma * ms,
            0 < ma,
            0 < ms,
    ;
    // One more micrometre adds at least one nanosecond's worth to the
    // numerator of the cruising time.
    assert(r * n1 + q <= r * n2) by (nonlinear_arith)
        requires
            n1 == 2 * ma * nearer + (ms - cs) * (ms - cs),
            n2 == 2 * ma * farther + (ms - cs) * (ms - cs),
            q == 2 * ma * ms,
            nearer + 1 <= farther,
            0 < ma,
            0 < ms <= r,
    ;
    if cap_not_reached(cs, ms, ma, farther) {
        assert(x1 + 2 * ma <= x2) by (nonlinear_arith)
            requires
                x1 == cs * cs + 2 * ma * nearer,
                x2 == cs * cs + 2 * ma * farther,
                nearer + 1 <= farther,
                0 < ma,
        ;
        lemma_scaled_root(cs, ms, ma, nearer);
        lemma_scaled_root(cs, ms, ma, farther);
        let y1: int = r * r * x1;
        let y2: int = r * r * x2;
        let s1: int = sqrt_floor(y1 as nat) as int;
        let s2: int = sqrt_floor(y2 as nat) as int;
        let top: int = r * ms;
        assert(y1 + 2 * r * r * ma <= y2 <= top * top) by (nonlinear_arith)
            requires
                y1 == r * r * x1,
                y2 == r * r * x2,
                top == r * ms,
                x1 + 2 * ma <= x2,
                x2 <= ms * ms,
        ;
        assert(0 <= top <= r * r) by (nonlinear_arith)
            requires
                top == r * ms,
                0 < ms <= r,
                r == 1_000_000_000,
        ;
        lemma_root_gains(s1, s2, y1, y2, top, ma);
        // A root that is `ma` further gives a quotient that is one more.
        let base: int = r * cs;
        lemma_quotient_bounds(s1 - base, ma);
        lemma_quotient_bounds(s2 - base, ma);
        assert(t1 < t2) by (nonlinear_arith)
            requires
                0 < ma,
                ma * t1 <= s1 - base,
                s1 + ma <= s2,
                s2 - base < ma * t2 + ma,
        ;
    } else if cap_not_reached(cs, ms, ma, nearer) {
        lemma_cruising_bounds_accelerating(cs, ms, ma, nearer);
        lemma_cruising_time_brackets(cs, ms, ma, farther);
        assert(t1 < t2) by (nonlinear_arith)
            requires
                0 < q,
                q * t1 <= r * n1,
                r * n1 + q <= r * n2,
                r * n2 < q * (t2 + 1),
        ;
    } else {
        lemma_cruising_time_brackets(cs, ms, ma, nearer);
        lemma_cruising_time_brackets(cs, ms, ma, farther);
        assert(t1 < t2) by (nonlinear_arith)
            requires
                0 < q,
                q * t1 <= r * n1,
                r * n1 + q <= r * n2,
                r * n2 < q * (t2 + 1),
        ;
    }
}

/// Beyond one micrometre per nanosecond the clock is too coarse: a vehicle
/// at such a cap covers its first micrometre within the nanosecond in which
/// it starts, so that the arrival time over it is zero, as over no distance
/// at all.
pub proof fn lemma_arrival_time_resolution(max_speed: int, max_acceleration: int)
    requires
        NANOS_PER_SECOND < max_speed,
        0 < max_acceleration,
    ensures
        arrival_time(max_speed, max_speed, max_acceleration, 1) == 0,
        arrival_time(max_speed, max_speed, max_acceleration, 0) == 0,
{
    let r: int = NANOS_PER_SECOND as int;
    let ms = max_speed;
    let ma = max_acceleration;
    lemma_arrival_time_at_zero(ms, ms, ma);
    assert(!cap_not_reached(ms, ms, ma, 1)) by (nonlinear_arith)
        requires
            0 < ma,
            cap_not_reached(ms, ms, ma, 1) == (ms * ms + 2 * ma * 1 <= ms * ms),
    ;
    let q: int = 2 * ma * ms;
    let n: int = 2 * ma * 1 + (ms - ms) * (ms - ms);
    assert(0 <= r * n < q) by (nonlinear_arith)
        requires
            n == 2 * ma * 1 + (ms - ms) * (ms - ms),
            q == 2 * ma * ms,
            r == 1_000_000_000,
            r < ms,
            0 < ma,
    ;
    lemma_quotient_from_bounds(r * n, q, 0);
}

} // verus!
