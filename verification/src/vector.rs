//! Points and directions of the plane, in whole steps.

use vstd::prelude::*;
use crate::root::{isqrt, lemma_sqrt_floor, lemma_square_monotonic, sqrt_floor};

verus! {

/// The largest magnitude of a coordinate that the distance computations
/// accept: 10^18 micrometres.
pub const MAX_COORDINATE: i64 = 1_000_000_000_000_000_000;

/// The largest distance between two points in range, rounded down: the
/// diagonal of the square that the range spans.
pub const MAX_DISTANCE: u64 = 2_828_427_124_746_190_097;

/// A point of the plane, or a displacement between two points.
#[derive(Clone, Copy, Debug, PartialEq, Eq, Structural)]
pub struct Vector {
    pub x: i64,
    pub y: i64,
}

impl Vector {
    /// Both coordinates are within `MAX_COORDINATE` of the origin.
    pub open spec fn in_range(self) -> bool {
        &&& -MAX_COORDINATE <= self.x <= MAX_COORDINATE
        &&& -MAX_COORDINATE <= self.y <= MAX_COORDINATE
    }

    /// The square of the distance from `self` to `target`.
    pub open spec fn squared_distance_to(self, target: Vector) -> int {
        (target.x - self.x) * (target.x - self.x) + (target.y - self.y) * (target.y - self.y)
    }

    /// The distance from `self` to `target`, rounded down.
    pub open spec fn distance_to(self, target: Vector) -> nat {
        sqrt_floor(self.squared_distance_to(target) as nat)
    }

    /// The scalar product of two vectors.
    pub open spec fn dot(self, other: Vector) -> int {
        self.x * other.x + self.y * other.y
    }

    /// Builds the vector with the given coordinates.
    pub fn new(x: i64, y: i64) -> (v: Vector)
        ensures
            v == (Vector { x, y }),
    {
        Vector { x, y }
    }

    /// Tells whether both coordinates are within `MAX_COORDINATE` of the
    /// origin.
    pub fn is_in_range(&self) -> (within: bool)
        ensures
            within == self.in_range(),
    {
        -MAX_COORDINATE <= self.x && self.x <= MAX_COORDINATE && -MAX_COORDINATE <= self.y
            && self.y <= MAX_COORDINATE
    }

    /// The displacement that leads from `self` to `target`.
    pub fn displacement_to(&self, target: &Vector) -> (d: Vector)
        requires
            self.in_range(),
            target.in_range(),
        ensures
            d.x == target.x - self.x,
            d.y == target.y - self.y,
    {
        Vector { x: target.x - self.x, y: target.y - self.y }
    }

    /// The distance from `self` to `target`, rounded down to whole steps.
    pub fn distance(&self, target: &Vector) -> (d: u64)
        requires
            self.in_range(),
            target.in_range(),
        ensures
            d == self.distance_to(*target),
            d <= MAX_DISTANCE,
    {
        let dx: i128 = target.x as i128 - self.x as i128;
        let dy: i128 = target.y as i128 - self.y as i128;
        proof {
            lemma_square_bounded(dx as int, 2 * MAX_COORDINATE);
            lemma_square_bounded(dy as int, 2 * MAX_COORDINATE);
            lemma_distance_bounded(*self, *target);
        }
        let squared: i128 = dx * dx + dy * dy;
        isqrt(squared as u128)
    }

    /// Tells whether `other` points into the half-plane that `self` faces:
    /// whether their scalar product is zero or more.
    pub fn faces(&self, other: &Vector) -> (forward: bool)
        ensures
            forward == (self.dot(*other) >= 0),
    {
        proof {
            lemma_product_bounded(self.x as int, other.x as int);
            lemma_product_bounded(self.y as int, other.y as int);
        }
        let along_x: i128 = self.x as i128 * other.x as i128;
        let along_y: i128 = self.y as i128 * other.y as i128;
        along_x >= -along_y
    }
}

/// Two points in range are at most `MAX_DISTANCE` apart.
pub proof fn lemma_distance_bounded(position: Vector, target: Vector)
    requires
        position.in_range(),
        target.in_range(),
    ensures
        position.distance_to(target) <= MAX_DISTANCE,
{
    let dx: int = target.x - position.x;
    let dy: int = target.y - position.y;
    let side: int = 2 * MAX_COORDINATE;
    lemma_square_bounded(dx, side);
    lemma_square_bounded(dy, side);
    let squared: int = position.squared_distance_to(target);
    let bound: int = MAX_DISTANCE as int;
    assert((bound + 1) * (bound + 1) > 2 * (side * side)) by (nonlinear_arith)
        requires
            bound == 2_828_427_124_746_190_097,
            side == 2_000_000_000_000_000_000,
    ;
    lemma_sqrt_floor(squared as nat);
    let d: int = position.distance_to(target) as int;
    if d > bound {
        lemma_square_monotonic(bound + 1, d);
    }
}

/// A number within `bound` of zero has a square within `bound * bound`.
pub proof fn lemma_square_bounded(a: int, bound: int)
    requires
        -bound <= a <= bound,
    ensures
        0 <= a * a <= bound * bound,
{
    assert(0 <= a * a <= bound * bound) by (nonlinear_arith)
        requires
            -bound <= a <= bound,
    ;
}

/// The product of two 64-bit numbers is within 2^126 of zero.
pub proof fn lemma_product_bounded(a: int, b: int)
    requires
        -0x8000_0000_0000_0000 <= a <= 0x8000_0000_0000_0000,
        -0x8000_0000_0000_0000 <= b <= 0x8000_0000_0000_0000,
    ensures
        -0x4000_0000_0000_0000_0000_0000_0000_0000 <= a * b
            <= 0x4000_0000_0000_0000_0000_0000_0000_0000,
{
    assert(-0x4000_0000_0000_0000_0000_0000_0000_0000 <= a * b
        <= 0x4000_0000_0000_0000_0000_0000_0000_0000) by (nonlinear_arith)
        requires
            -0x8000_0000_0000_0000 <= a <= 0x8000_0000_0000_0000,
            -0x8000_0000_0000_0000 <= b <= 0x8000_0000_0000_0000,
    ;
}

} // verus!
