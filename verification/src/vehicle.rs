//! The vehicle: its speed, its limits and its heading.

use vstd::prelude::*;
use crate::destination::Destination;
use crate::guidance::{guide, is_guidance, Guidance};
use crate::kinematics::{arrival_time, earliest_arrival_time};
use crate::units::{
    clamp_int, lemma_quotient_bounds, lemma_quotient_from_bounds, max_int, MICRO, NANOS_PER_SECOND,
};
use crate::vector::Vector;

verus! {

/// One second of full throttle: the controller outputs are in millionths and
/// the durations in nanoseconds, so output times duration is in units of
/// 10^-15 seconds of full throttle.
pub const THROTTLE_SECOND: u64 = 1_000_000_000_000_000;

/// The speed cap of a vehicle made by `Vehicle::default`: 80 km/h.
pub const DEFAULT_MAX_SPEED: u32 = 22_222_222;

/// The acceleration cap of a vehicle made by `Vehicle::default`: 6 m/s^2.
pub const DEFAULT_MAX_ACCELERATION: u32 = 6_000_000;

/// The braking cap of a vehicle made by `Vehicle::default`: 7.35 m/s^2.
pub const DEFAULT_MAX_BRAKING: u32 = 7_350_000;

/// Why a vehicle cannot be made.
#[derive(Clone, Copy, Debug, PartialEq, Eq, Structural)]
pub enum ConfigError {
    /// The speed cap is zero.
    ZeroMaxSpeed,
    /// The acceleration cap is zero.
    ZeroMaxAcceleration,
    /// The braking cap is zero.
    ZeroMaxBraking,
}

/// The acceleration that the controller output `output` commands, in
/// millionths of a micrometre per second squared: the output scales the
/// acceleration cap when it is zero or more, and the braking cap when it is
/// negative.
pub open spec fn command(output: int, max_acceleration: int, max_braking: int) -> int {
    if output >= 0 {
        output * max_acceleration
    } else {
        output * max_braking
    }
}

/// The change of speed that `command` makes within `delta_t` nanoseconds, in
/// whole micrometres per second, rounded toward zero.
pub open spec fn speed_change(command: int, delta_t: int) -> int {
    if command >= 0 {
        command * delta_t / (THROTTLE_SECOND as int)
    } else {
        -((-command) * delta_t / (THROTTLE_SECOND as int))
    }
}

/// What a vehicle is, as far as its behaviour goes.
pub struct VehicleState {
    /// The speed along the heading, in micrometres per second; negative
    /// when the vehicle backs up.
    pub speed: int,
    /// The cap on the speed's magnitude.
    pub max_speed: int,
    /// The cap on the acceleration, in micrometres per second squared.
    pub max_acceleration: int,
    /// The cap on the braking, in micrometres per second squared.
    pub max_braking: int,
    /// The heading.
    pub direction: Vector,
}

impl VehicleState {
    /// The caps are positive, and the speed is within the speed cap.
    pub open spec fn wf(self) -> bool {
        &&& 0 < self.max_speed <= u32::MAX
        &&& 0 < self.max_acceleration <= u32::MAX
        &&& 0 < self.max_braking <= u32::MAX
        &&& -self.max_speed <= self.speed <= self.max_speed
    }

    /// The state after the controller output `output` acted for `delta_t`
    /// nanoseconds: the speed has changed by what the output commands, and
    /// is held within the speed cap.
    pub open spec fn after_output(self, output: int, delta_t: int) -> VehicleState {
        VehicleState {
            speed: clamp_int(
                self.speed + speed_change(
                    command(output, self.max_acceleration, self.max_braking),
                    delta_t,
                ),
                -self.max_speed,
                self.max_speed,
            ),
            ..self
        }
    }

    /// The state after a halt was ordered: the speed is lower by half the
    /// braking cap, but not below zero.
    pub open spec fn after_stop(self) -> VehicleState {
        VehicleState { speed: max_int(0, self.speed - self.max_braking / 2), ..self }
    }
}

/// A vehicle. Its view is its `VehicleState`, which is well-formed at all
/// times.
#[derive(Debug)]
pub struct Vehicle {
    speed: i64,
    max_speed: u32,
    max_acceleration: u32,
    max_braking: u32,
    direction: Vector,
}

impl View for Vehicle {
    type V = VehicleState;

    closed spec fn view(&self) -> VehicleState {
        VehicleState {
            speed: self.speed as int,
            max_speed: self.max_speed as int,
            max_acceleration: self.max_acceleration as int,
            max_braking: self.max_braking as int,
            direction: self.direction,
        }
    }
}

impl Default for Vehicle {
    /// A vehicle at rest that heads along the x axis, with the default caps.
    fn default() -> (vehicle: Vehicle)
        ensures
            vehicle@ == (VehicleState {
                speed: 0,
                max_speed: DEFAULT_MAX_SPEED as int,
                max_acceleration: DEFAULT_MAX_ACCELERATION as int,
                max_braking: DEFAULT_MAX_BRAKING as int,
                direction: Vector { x: MICRO as i64, y: 0 },
            }),
            vehicle@.wf(),
    {
        Vehicle {
            speed: 0,
            max_speed: DEFAULT_MAX_SPEED,
            max_acceleration: DEFAULT_MAX_ACCELERATION,
            max_braking: DEFAULT_MAX_BRAKING,
            direction: Vector { x: MICRO as i64, y: 0 },
        }
    }
}

impl Vehicle {
    /// Every vehicle is in a well-formed state.
    #[verifier::type_invariant]
    spec fn valid(self) -> bool {
        self@.wf()
    }

    /// Makes a vehicle at rest that heads along the x axis. A cap of zero is
    /// refused: the speed cap first, then the acceleration cap, then the
    /// braking cap.
    pub fn new(
        max_speed: u32,
        max_acceleration: u32,
        max_braking: u32,
    ) -> (made: Result<Vehicle, ConfigError>)
        ensures
            max_speed == 0 ==> made == Err::<Vehicle, ConfigError>(ConfigError::ZeroMaxSpeed),
            max_speed != 0 && max_acceleration == 0 ==> made == Err::<Vehicle, ConfigError>(
                ConfigError::ZeroMaxAcceleration,
            ),
            max_speed != 0 && max_acceleration != 0 && max_braking == 0 ==> made == Err::<
                Vehicle,
                ConfigError,
            >(ConfigError::ZeroMaxBraking),
            max_speed != 0 && max_acceleration != 0 && max_braking != 0 ==> made is Ok
                && made->Ok_0@ == (VehicleState {
                speed: 0,
                max_speed: max_speed as int,
                max_acceleration: max_acceleration as int,
                max_braking: max_braking as int,
                direction: Vector { x: MICRO as i64, y: 0 },
            }) && made->Ok_0@.wf(),
    {
        if max_speed == 0 {
            Err(ConfigError::ZeroMaxSpeed)
        } else if max_acceleration == 0 {
            Err(ConfigError::ZeroMaxAcceleration)
        } else if max_braking == 0 {
            Err(ConfigError::ZeroMaxBraking)
        } else {
            Ok(
                Vehicle {
                    speed: 0,
                    max_speed,
                    max_acceleration,
                    max_braking,
                    direction: Vector { x: MICRO as i64, y: 0 },
                },
            )
        }
    }

    /// The speed along the heading, in micrometres per second. It is within
    /// the speed cap, as the state of every vehicle is well-formed.
    pub fn current_speed(&self) -> (speed: i64)
        ensures
            speed == self@.speed,
            self@.wf(),
    {
        proof {
            use_type_invariant(&*self);
        }
        self.speed
    }

    /// The cap on the speed's magnitude, in micrometres per second.
    pub fn max_speed(&self) -> (cap: u32)
        ensures
            cap == self@.max_speed,
    {
        self.max_speed
    }

    /// The cap on the acceleration, in micrometres per second squared.
    pub fn max_acceleration(&self) -> (cap: u32)
        ensures
            cap == self@.max_acceleration,
    {
        self.max_acceleration
    }

    /// The cap on the braking, in micrometres per second squared.
    pub fn max_braking(&self) -> (cap: u32)
        ensures
            cap == self@.max_braking,
    {
        self.max_braking
    }

    /// The heading.
    pub fn direction(&self) -> (direction: Vector)
        ensures
            direction == self@.direction,
    {
        self.direction
    }

    /// Turns the vehicle to head along `direction`.
    pub fn set_direction(&mut self, direction: Vector)
        ensures
            final(self)@ == (VehicleState { direction, ..old(self)@ }),
            final(self)@.wf(),
    {
        proof {
            use_type_invariant(&*self);
        }
        self.direction = direction;
    }

    /// The earliest time, in whole nanoseconds, at which the vehicle can be
    /// `distance` micrometres further on, if it accelerates as hard as it
    /// may from its current speed and then holds its speed cap.
    pub fn eariliest_arrival_time(&self, distance: u64) -> (t: u128)
        requires
            self@.speed >= 0,
        ensures
            t == arrival_time(
                self@.speed,
                self@.max_speed,
                self@.max_acceleration,
                distance as int,
            ),
            distance == 0 ==> t == 0,
    {
        proof {
            use_type_invariant(&*self);
        }
        earliest_arrival_time(self.speed as u32, self.max_speed, self.max_acceleration, distance)
    }

    /// Works out what this tick hands to the controllers, for the vehicle
    /// at `position` with the waypoints `dests` before it.
    pub fn guidance(&self, position: &Vector, dests: &Destination, scale: u64) -> (guidance: Guidance)
        requires
            position.in_range(),
            dests@.len() > 0 ==> dests@[0].1.in_range(),
            scale > 0,
        ensures
            is_guidance(guidance, *position, self@.direction, dests@, scale as int),
    {
        guide(position, &self.direction, dests, scale)
    }

    /// Lets the controller output `output`, in millionths of full throttle,
    /// act on the speed for `delta_t` nanoseconds.
    pub fn update_speed(&mut self, output: i64, delta_t: u64)
        ensures
            final(self)@ == old(self)@.after_output(output as int, delta_t as int),
            final(self)@.wf(),
    {
        proof {
            use_type_invariant(&*self);
        }
        let unit: u128 = THROTTLE_SECOND as u128;
        let limit: u128 = if output >= 0 {
            self.max_acceleration as u128
        } else {
            self.max_braking as u128
        };
        let size: u128 = if output >= 0 {
            output as u128
        } else {
            (-(output as i128)) as u128
        };
        let dt: u128 = delta_t as u128;
        proof {
            assert(size * limit <= 0x8000_0000_0000_0000 * 0xffff_ffff) by (nonlinear_arith)
                requires
                    0 <= size <= 0x8000_0000_0000_0000,
                    0 <= limit <= 0xffff_ffff,
            ;
        }
        let demand: u128 = size * limit;
        let whole: u128 = demand / unit;
        let part: u128 = demand % unit;
        proof {
            lemma_quotient_bounds(demand as int, unit as int);
            vstd::arithmetic::div_mod::lemma_fundamental_div_mod(demand as int, unit as int);
            assert(whole * dt <= 39_614_081_257_133 * 0xffff_ffff_ffff_ffff) by (nonlinear_arith)
                requires
                    0 <= whole <= 39_614_081_257_133,
                    0 <= dt <= 0xffff_ffff_ffff_ffff,
            ;
            assert(part * dt <= 1_000_000_000_000_000 * 0xffff_ffff_ffff_ffff) by (nonlinear_arith)
                requires
                    0 <= part <= 1_000_000_000_000_000,
                    0 <= dt <= 0xffff_ffff_ffff_ffff,
            ;
        }
        let change: u128 = whole * dt + part * dt / unit;
        proof {
            // `change` is `demand * dt / unit`, computed without forming the product.
            lemma_quotient_bounds((part * dt) as int, unit as int);
            assert(demand * dt == unit * (whole * dt) + part * dt) by (nonlinear_arith)
                requires
                    demand == unit * whole + part,
            ;
            lemma_quotient_from_bounds((demand * dt) as int, unit as int, change as int);
            assert(change as int == (demand * dt) as int / (unit as int));
            if output >= 0 {
                assert(command(output as int, self@.max_acceleration, self@.max_braking)
                    == demand);
            } else {
                assert(-command(output as int, self@.max_acceleration, self@.max_braking)
                    == demand) by (nonlinear_arith)
                    requires
                        output < 0,
                        size == -output,
                        demand == size * limit,
                        limit == self@.max_braking,
                        command(output as int, self@.max_acceleration, self@.max_braking) == output
                            * self@.max_braking,
                ;
                assert(command(output as int, self@.max_acceleration, self@.max_braking) <= 0);
            }
        }
        let cap: i128 = self.max_speed as i128;
        let aimed: i128 = if output >= 0 {
            self.speed as i128 + change as i128
        } else {
            self.speed as i128 - change as i128
        };
        self.speed = if aimed < -cap {
            -(self.max_speed as i64)
        } else if aimed > cap {
            self.max_speed as i64
        } else {
            aimed as i64
        };
    }

    /// Orders a halt: lowers the speed by half the braking cap, but not
    /// below zero.
    pub fn stop(&mut self)
        ensures
            final(self)@ == old(self)@.after_stop(),
            final(self)@.wf(),
    {
        proof {
            use_type_invariant(&*self);
        }
        let lowered: i64 = self.speed - (self.max_braking / 2) as i64;
        self.speed = if lowered > 0 {
            lowered
        } else {
            0
        };
    }
}

/// The state after each of `outputs`, a sequence of controller outputs with
/// their durations, acted in turn.
pub open spec fn after_outputs(state: VehicleState, outputs: Seq<(int, int)>) -> VehicleState
    decreases outputs.len(),
{
    if outputs.len() == 0 {
        state
    } else {
        after_outputs(state, outputs.drop_last()).after_output(outputs.last().0, outputs.last().1)
    }
}

/// The speed never leaves the cap: whatever the controller puts out and
/// however long it acts, the speed afterwards is within the speed cap, and
/// the caps and the heading are as before.
pub proof fn lemma_speed_within_cap(state: VehicleState, output: int, delta_t: int)
    requires
        state.wf(),
    ensures
        state.after_output(output, delta_t).wf(),
        -state.max_speed <= state.after_output(output, delta_t).speed <= state.max_speed,
        state.after_output(output, delta_t) == (VehicleState {
            speed: state.after_output(output, delta_t).speed,
            ..state
        }),
{
}

/// The speed never leaves the cap over any sequence of updates.
pub proof fn lemma_speed_within_cap_always(state: VehicleState, outputs: Seq<(int, int)>)
    requires
        state.wf(),
    ensures
        after_outputs(state, outputs).wf(),
        -state.max_speed <= after_outputs(state, outputs).speed <= state.max_speed,
        after_outputs(state, outputs).max_speed == state.max_speed,
    decreases outputs.len(),
{
    if outputs.len() > 0 {
        lemma_speed_within_cap_always(state, outputs.drop_last());
        lemma_speed_within_cap(
            after_outputs(state, outputs.drop_last()),
            outputs.last().0,
            outputs.last().1,
        );
    }
}

/// Braking and accelerating answer to different caps. A positive output
/// commands that share of the acceleration cap, the opposite output the
/// same share of the braking cap, so the two commands are to each other as
/// the two caps, and are of one size only where the caps are equal. The
/// changes of speed are the two commands over the same duration, each
/// rounded toward zero.
pub proof fn lemma_braking_asymmetry(
    output: int,
    max_acceleration: int,
    max_braking: int,
    delta_t: int,
)
    requires
        0 < output,
        0 < max_acceleration,
        0 < max_braking,
        0 <= delta_t,
    ensures
        command(output, max_acceleration, max_braking) == output * max_acceleration,
        command(-output, max_acceleration, max_braking) == -(output * max_braking),
        command(output, max_acceleration, max_braking) * max_braking == -command(
            -output,
            max_acceleration,
            max_braking,
        ) * max_acceleration,
        max_acceleration != max_braking <==> command(output, max_acceleration, max_braking)
            != -command(-output, max_acceleration, max_braking),
        speed_change(command(output, max_acceleration, max_braking), delta_t) == output
            * max_acceleration * delta_t / (THROTTLE_SECOND as int),
        speed_change(command(-output, max_acceleration, max_braking), delta_t) == -(output
            * max_braking * delta_t / (THROTTLE_SECOND as int)),
{
    let up: int = output * max_acceleration;
    let down: int = output * max_braking;
    assert(0 < up) by (nonlinear_arith)
        requires
            up == output * max_acceleration,
            0 < output,
            0 < max_acceleration,
    ;
    assert(0 < down) by (nonlinear_arith)
        requires
            down == output * max_braking,
            0 < output,
            0 < max_braking,
    ;
    assert((-output) * max_braking == -down) by (nonlinear_arith)
        requires
            down == output * max_braking,
    ;
    assert(up * max_braking == down * max_acceleration) by (nonlinear_arith)
        requires
            up == output * max_acceleration,
            down == output * max_braking,
    ;
    assert(max_acceleration != max_braking <==> up != down) by (nonlinear_arith)
        requires
            up == output * max_acceleration,
            down == output * max_braking,
            0 < output,
    ;
}

/// Dividing a multiple of a million by a million seconds of full throttle
/// is dividing by the nanoseconds of a second.
proof fn lemma_full_throttle(x: int)
    requires
        0 <= x,
    ensures
        (MICRO * x) / (THROTTLE_SECOND as int) == x / (NANOS_PER_SECOND as int),
{
    let q: int = x / (NANOS_PER_SECOND as int);
    lemma_quotient_bounds(x, NANOS_PER_SECOND as int);
    lemma_quotient_from_bounds(MICRO * x, THROTTLE_SECOND as int, q);
}

/// Within one update the speed changes by no more than the caps allow. An
/// output between full braking and full throttle lowers the speed by at most
/// the braking cap times the duration, and raises it by at most the
/// acceleration cap times the duration. An output of zero or less never
/// raises the speed, one of zero or more never lowers it.
pub proof fn lemma_speed_change_limited(state: VehicleState, output: int, delta_t: int)
    requires
        state.wf(),
        -MICRO <= output <= MICRO,
        0 <= delta_t,
    ensures
        state.speed - state.max_braking * delta_t / (NANOS_PER_SECOND as int) <= state.after_output(
            output,
            delta_t,
        ).speed,
        state.after_output(output, delta_t).speed <= state.speed + state.max_acceleration * delta_t
            / (NANOS_PER_SECOND as int),
        output <= 0 ==> state.after_output(output, delta_t).speed <= state.speed,
        output >= 0 ==> state.after_output(output, delta_t).speed >= state.speed,
{
    let unit: int = THROTTLE_SECOND as int;
    let demand: int = command(output, state.max_acceleration, state.max_braking);
    if output >= 0 {
        let full: int = state.max_acceleration * delta_t;
        assert(0 <= demand * delta_t <= MICRO * full) by (nonlinear_arith)
            requires
                demand == output * state.max_acceleration,
                full == state.max_acceleration * delta_t,
                0 <= output <= MICRO,
                0 < state.max_acceleration,
                0 <= delta_t,
        ;
        assert(0 <= demand) by (nonlinear_arith)
            requires
                demand == output * state.max_acceleration,
                0 <= output,
                0 < state.max_acceleration,
        ;
        assert(0 <= full) by (nonlinear_arith)
            requires
                full == state.max_acceleration * delta_t,
                0 < state.max_acceleration,
                0 <= delta_t,
        ;
        vstd::arithmetic::div_mod::lemma_div_is_ordered(demand * delta_t, MICRO * full, unit);
        vstd::arithmetic::div_mod::lemma_div_pos_is_pos(demand * delta_t, unit);
        lemma_full_throttle(full);
        if output == 0 {
            assert(demand * delta_t == 0) by (nonlinear_arith)
                requires
                    demand == 0 * state.max_acceleration,
            ;
        }
    } else {
        let full: int = state.max_braking * delta_t;
        assert(0 <= (-demand) * delta_t <= MICRO * full) by (nonlinear_arith)
            requires
                demand == output * state.max_braking,
                full == state.max_braking * delta_t,
                -MICRO <= output < 0,
                0 < state.max_braking,
                0 <= delta_t,
        ;
        assert(demand < 0) by (nonlinear_arith)
            requires
                demand == output * state.max_braking,
                output < 0,
                0 < state.max_braking,
        ;
        assert(0 <= full) by (nonlinear_arith)
            requires
                full == state.max_braking * delta_t,
                0 < state.max_braking,
                0 <= delta_t,
        ;
        vstd::arithmetic::div_mod::lemma_div_is_ordered((-demand) * delta_t, MICRO * full, unit);
        vstd::arithmetic::div_mod::lemma_div_pos_is_pos((-demand) * delta_t, unit);
        lemma_full_throttle(full);
    }
}

/// A halt never reverses the vehicle: the speed afterwards is zero or more,
/// at most what it was if the vehicle moved forward, and still within the
/// cap.
pub proof fn lemma_stop_never_reverses(state: VehicleState)
    requires
        state.wf(),
    ensures
        state.after_stop().wf(),
        0 <= state.after_stop().speed,
        state.speed >= 0 ==> state.after_stop().speed <= state.speed,
        state.after_stop().speed == 0 <==> state.speed <= state.max_braking / 2,
{
}

} // verus!
