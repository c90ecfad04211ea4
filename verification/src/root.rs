//! Integer square roots, rounded down.

use vstd::prelude::*;

verus! {

/// `r` is the square root of `n`, rounded down.
pub open spec fn is_sqrt_floor(n: int, r: int) -> bool {
    0 <= r && r * r <= n < (r + 1) * (r + 1)
}

/// The square root of `n`, rounded down: the one `r` with
/// `r * r <= n < (r + 1) * (r + 1)`.
pub open spec fn sqrt_floor(n: nat) -> nat {
    choose|r: nat| is_sqrt_floor(n as int, r as int)
}

/// Squaring keeps the order of natural numbers.
pub proof fn lemma_square_monotonic(a: int, b: int)
    requires
        0 <= a <= b,
    ensures
        a * a <= b * b,
{
    assert(a * a <= b * b) by (nonlinear_arith)
        requires
            0 <= a <= b,
    ;
}

/// Every natural number has a rounded-down square root.
pub proof fn lemma_sqrt_floor_exists(n: nat)
    ensures
        exists|r: nat| is_sqrt_floor(n as int, r as int),
    decreases n,
{
    if n == 0 {
        assert(is_sqrt_floor(0, 0nat as int));
    } else {
        let m: nat = (n - 1) as nat;
        lemma_sqrt_floor_exists(m);
        let r: nat = choose|r: nat| is_sqrt_floor(m as int, r as int);
        if (r + 1) * (r + 1) <= n {
            assert((r + 2) * (r + 2) > (r + 1) * (r + 1)) by (nonlinear_arith)
                requires
                    r >= 0,
            ;
            assert(is_sqrt_floor(n as int, (r + 1) as nat as int));
        } else {
            assert(is_sqrt_floor(n as int, r as int));
        }
    }
}

/// At most one number is the rounded-down square root of `n`.
pub proof fn lemma_sqrt_floor_unique(n: int, r1: int, r2: int)
    requires
        is_sqrt_floor(n, r1),
        is_sqrt_floor(n, r2),
    ensures
        r1 == r2,
{
    if r1 < r2 {
        lemma_square_monotonic(r1 + 1, r2);
    } else if r2 < r1 {
        lemma_square_monotonic(r2 + 1, r1);
    }
}

/// The rounded-down square root of a number within `bound * bound` is
/// within `bound`.
pub proof fn lemma_sqrt_floor_bounded(n: int, r: int, bound: int)
    requires
        is_sqrt_floor(n, r),
        0 <= bound,
        n <= bound * bound,
    ensures
        r <= bound,
{
    if bound < r {
        lemma_square_monotonic(bound + 1, r);
        assert((bound + 1) * (bound + 1) > bound * bound) by (nonlinear_arith)
            requires
                0 <= bound,
        ;
    }
}

/// `sqrt_floor(n)` is the rounded-down square root of `n`, and the only one.
pub proof fn lemma_sqrt_floor(n: nat)
    ensures
        is_sqrt_floor(n as int, sqrt_floor(n) as int),
        forall|r: int| is_sqrt_floor(n as int, r) ==> r == sqrt_floor(n),
{
    lemma_sqrt_floor_exists(n);
    assert forall|r: int| is_sqrt_floor(n as int, r) implies r == sqrt_floor(n) by {
        lemma_sqrt_floor_unique(n as int, r, sqrt_floor(n) as int);
    }
}

/// The rounded-down square root of a perfect square is its root.
pub proof fn lemma_sqrt_floor_of_square(r: nat)
    ensures
        sqrt_floor(r * r) == r,
{
    assert((r + 1) * (r + 1) > r * r) by (nonlinear_arith)
        requires
            r >= 0,
    ;
    assert(is_sqrt_floor((r * r) as int, r as int));
    lemma_sqrt_floor(r * r);
}

/// The rounded-down square root never decreases as its argument grows.
pub proof fn lemma_sqrt_floor_monotonic(a: nat, b: nat)
    requires
        a <= b,
    ensures
        sqrt_floor(a) <= sqrt_floor(b),
{
    lemma_sqrt_floor(a);
    lemma_sqrt_floor(b);
    if sqrt_floor(b) < sqrt_floor(a) {
        lemma_square_monotonic(sqrt_floor(b) as int + 1, sqrt_floor(a) as int);
    }
}

/// Computes the square root of `n`, rounded down, by bisection.
pub fn isqrt(n: u128) -> (r: u64)
    ensures
        r == sqrt_floor(n as nat),
        is_sqrt_floor(n as int, r as int),
{
    let mut low: u128 = 0;
    let mut high: u128 = 0x1_0000_0000_0000_0000;
    assert(0x1_0000_0000_0000_0000int * 0x1_0000_0000_0000_0000int
        == 0x1_0000_0000_0000_0000_0000_0000_0000_0000int) by (nonlinear_arith);
    while high - low > 1
        invariant
            low < high <= 0x1_0000_0000_0000_0000,
            low * low <= n < high * high,
        decreases high - low,
    {
        let mid: u128 = low + (high - low) / 2;
        assert(mid * mid <= 0xffff_ffff_ffff_ffff * 0xffff_ffff_ffff_ffff) by (nonlinear_arith)
            requires
                0 <= mid <= 0xffff_ffff_ffff_ffff,
        ;
        assert(0xffff_ffff_ffff_ffffint * 0xffff_ffff_ffff_ffffint < u128::MAX) by (nonlinear_arith);
        if mid * mid <= n {
            low = mid;
        } else {
            high = mid;
        }
    }
    proof {
        assert(high == low + 1);
        assert(is_sqrt_floor(n as int, low as int));
        lemma_sqrt_floor(n as nat);
    }
    low as u64
}

} // verus!
