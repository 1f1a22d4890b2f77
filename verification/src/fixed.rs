//! Fixed-point arithmetic helpers shared by the generator, the spiral walk
//! and the frustum tests. Fractional values are kept in Q47.16: `FP_ONE`
//! stands for 1.0.

use vstd::prelude::*;
use vstd::arithmetic::div_mod::lemma_fundamental_div_mod_converse;

verus! {

/// The fixed-point unit: 2^16.
pub const FP_ONE: i64 = 65536;

/// `v` clamped into `[lo, hi]`.
pub open spec fn spec_clamp(v: int, lo: int, hi: int) -> int {
    if v < lo {
        lo
    } else if v > hi {
        hi
    } else {
        v
    }
}

pub fn clamp_i64(v: i64, lo: i64, hi: i64) -> (r: i64)
    requires
        lo <= hi,
    ensures
        r == spec_clamp(v as int, lo as int, hi as int),
{
    if v < lo {
        lo
    } else if v > hi {
        hi
    } else {
        v
    }
}

/// Floor division by a positive divisor; agrees with the mathematical
/// (Euclidean) quotient.
pub fn div_floor_i64(a: i64, b: i64) -> (q: i64)
    requires
        b > 0,
        a > i64::MIN,
    ensures
        q == a as int / b as int,
{
    if a >= 0 {
        a / b
    } else {
        let na = -a;
        let nq = na / b;
        let nr = na % b;
        proof {
            vstd::arithmetic::div_mod::lemma_fundamental_div_mod(na as int, b as int);
            if nr == 0 {
                assert(a as int == (-(nq as int)) * (b as int) + 0) by (nonlinear_arith)
                    requires
                        a == -(na as int),
                        na as int == (b as int) * (nq as int) + (nr as int),
                        nr == 0,
                {}
                lemma_fundamental_div_mod_converse(a as int, b as int, -(nq as int), 0);
            } else {
                assert(a as int == (-(nq as int) - 1) * (b as int) + ((b as int) - (nr as int)))
                    by (nonlinear_arith)
                    requires
                        a == -(na as int),
                        na as int == (b as int) * (nq as int) + (nr as int),
                {}
                lemma_fundamental_div_mod_converse(
                    a as int,
                    b as int,
                    -(nq as int) - 1,
                    (b as int) - (nr as int),
                );
            }
        }
        if nr == 0 {
            -nq
        } else {
            -nq - 1
        }
    }
}

/// There always is a floor square root.
pub proof fn lemma_sqrt_floor_exists(n: nat)
    ensures
        exists|r: nat| (#[trigger] (r * r)) <= n && n < (r + 1) * (r + 1),
    decreases n,
{
    if n == 0 {
        assert(0 * 0 <= 0nat && 0 < (0 + 1) * (0 + 1)) by (nonlinear_arith);
    } else {
        lemma_sqrt_floor_exists((n - 1) as nat);
        let r = choose|r: nat| (#[trigger] (r * r)) <= n - 1 && n - 1 < (r + 1) * (r + 1);
        if n < (r + 1) * (r + 1) {
            assert(r * r <= n && n < (r + 1) * (r + 1));
        } else {
            assert((r + 1) * (r + 1) <= n && n < (r + 2) * (r + 2)) by (nonlinear_arith)
                requires
                    r * r <= n - 1,
                    n - 1 < (r + 1) * (r + 1),
                    (r + 1) * (r + 1) <= n,
            {}
        }
    }
}

/// The floor square root is unique.
pub proof fn lemma_sqrt_floor_unique(n: nat, r1: nat, r2: nat)
    requires
        r1 * r1 <= n < (r1 + 1) * (r1 + 1),
        r2 * r2 <= n < (r2 + 1) * (r2 + 1),
    ensures
        r1 == r2,
{
    assert(r1 == r2) by (nonlinear_arith)
        requires
            r1 * r1 <= n < (r1 + 1) * (r1 + 1),
            r2 * r2 <= n < (r2 + 1) * (r2 + 1),
    {}
}

/// The floor of the square root of `n`.
pub open spec fn sqrt_floor(n: nat) -> nat {
    choose|r: nat| (#[trigger] (r * r)) <= n && n < (r + 1) * (r + 1)
}

/// `sqrt_floor` satisfies its defining inequalities.
pub proof fn lemma_sqrt_floor(n: nat)
    ensures
        sqrt_floor(n) * sqrt_floor(n) <= n,
        n < (sqrt_floor(n) + 1) * (sqrt_floor(n) + 1),
{
    lemma_sqrt_floor_exists(n);
}

/// Integer square root by bisection.
pub fn isqrt_u64(n: u64) -> (r: u64)
    ensures
        r as nat == sqrt_floor(n as nat),
        r * r <= n,
        n < (r + 1) * (r + 1),
{
    let mut lo: u64 = 0;
    let mut hi: u64 = 4294967296;
    proof {
        assert((4294967296 as int) * (4294967296 as int) > u64::MAX) by (nonlinear_arith);
    }
    while lo + 1 < hi
        invariant
            lo < hi <= 4294967296,
            lo * lo <= n,
            (n as int) < (hi as int) * (hi as int),
        decreases hi - lo,
    {
        let mid = lo + (hi - lo) / 2;
        assert(lo < mid < hi);
        assert((mid as int) * (mid as int) <= u64::MAX as int) by (nonlinear_arith)
            requires
                0 <= mid < 4294967296,
        {}
        if mid * mid <= n {
            lo = mid;
        } else {
            hi = mid;
        }
    }
    proof {
        assert(hi == lo + 1);
        lemma_sqrt_floor_exists(n as nat);
        lemma_sqrt_floor(n as nat);
        lemma_sqrt_floor_unique(n as nat, lo as nat, sqrt_floor(n as nat));
    }
    lo
}

} // verus!
