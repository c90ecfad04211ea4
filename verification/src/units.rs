//! The fixed-point units shared by the whole crate.

use vstd::prelude::*;

verus! {

/// Steps per unit of every scaled quantity that is not a duration: one metre
/// is this many micrometres, one radian this many microradians, full throttle
/// this many millionths.
pub const MICRO: u64 = 1_000_000;

/// Nanoseconds in one second.
pub const NANOS_PER_SECOND: u64 = 1_000_000_000;

/// The larger of two integers.
pub open spec fn max_int(a: int, b: int) -> int {
    if a >= b {
        a
    } else {
        b
    }
}

/// `value` held to the interval from `low` to `high`.
pub open spec fn clamp_int(value: int, low: int, high: int) -> int {
    if value < low {
        low
    } else if value > high {
        high
    } else {
        value
    }
}

/// `d` goes into `x` exactly `q` times with a remainder below `d`: the
/// quotient of the rounded-down division is pinned by its two bounds.
pub proof fn lemma_quotient_bounds(x: int, d: int)
    requires
        d > 0,
    ensures
        d * (x / d) <= x < d * (x / d) + d,
{
    vstd::arithmetic::div_mod::lemma_fundamental_div_mod(x, d);
    vstd::arithmetic::div_mod::lemma_mod_bound(x, d);
}

/// A number whose multiples bracket `x` is the rounded-down quotient.
pub proof fn lemma_quotient_from_bounds(x: int, d: int, q: int)
    requires
        d > 0,
        d * q <= x < d * q + d,
    ensures
        q == x / d,
{
    assert(d * q == q * d) by (nonlinear_arith);
    vstd::arithmetic::div_mod::lemma_fundamental_div_mod_converse_div(x, d, q, x - d * q);
}

} // verus!
