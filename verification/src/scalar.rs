//! Fixed-point scalars.
//!
//! Every physical quantity (mass, coordinate, velocity, the gravitational
//! constant, a time step) is an `i64` holding `SCALE` raw units per
//! simulation unit. Stored values are kept within `[-LIM, LIM]`: arithmetic
//! that would leave that window saturates at its edge, so every tick is
//! total and panic-free.

use vstd::prelude::*;

verus! {

/// Raw units per simulation unit.
pub const SCALE: i64 = 1_000_000;

/// Largest magnitude, in raw units, that a stored scalar may take.
pub const LIM: i64 = 10_000_000_000;

/// Largest magnitude a single scaled step (`a * dt / SCALE` with both
/// factors within `LIM`) can take.
pub const STEP_LIM: i64 = 100_000_000_000_000;

/// A value that fits in the saturation window.
pub open spec fn in_lim(v: int) -> bool {
    -(LIM as int) <= v && v <= LIM as int
}

/// Magnitude of a value.
pub open spec fn mag(v: int) -> int {
    if v < 0 {
        -v
    } else {
        v
    }
}

/// Saturation to the window `[-LIM, LIM]`.
pub open spec fn clamped(v: int) -> int {
    if v > LIM as int {
        LIM as int
    } else if v < -(LIM as int) {
        -(LIM as int)
    } else {
        v
    }
}

/// `a * dt / SCALE`, truncated toward zero; `dt` is expected non-negative.
pub open spec fn scaled(a: int, dt: int) -> int {
    if a >= 0 {
        (a * dt) / (SCALE as int)
    } else {
        -(((-a) * dt) / (SCALE as int))
    }
}

/// Integer square root: the largest `r` with `r * r <= n`.
pub open spec fn isqrt_spec(n: nat) -> nat
    decreases n,
{
    if n == 0 {
        0
    } else {
        let r = isqrt_spec((n - 1) as nat);
        if (r + 1) * (r + 1) <= n {
            r + 1
        } else {
            r
        }
    }
}

/// The defining bounds of the integer square root.
pub proof fn lemma_isqrt_bounds(n: nat)
    ensures
        isqrt_spec(n) * isqrt_spec(n) <= n,
        n < (isqrt_spec(n) + 1) * (isqrt_spec(n) + 1),
    decreases n,
{
    if n == 0 {
        assert(n < (isqrt_spec(n) + 1) * (isqrt_spec(n) + 1)) by (nonlinear_arith)
            requires
                n == 0 && isqrt_spec(n) == 0,
        ;
    } else {
        lemma_isqrt_bounds((n - 1) as nat);
        let r = isqrt_spec((n - 1) as nat);
        if (r + 1) * (r + 1) <= n {
            assert(isqrt_spec(n) == r + 1);
            assert(n == (r + 1) * (r + 1));
            assert((r + 1) * (r + 1) < (r + 2) * (r + 2)) by (nonlinear_arith);
        } else {
            assert(isqrt_spec(n) == r);
            assert(n < (isqrt_spec(n) + 1) * (isqrt_spec(n) + 1));
        }
    }
}

/// Any `r` within the defining bounds is the integer square root.
pub proof fn lemma_isqrt_unique(n: nat, r: nat)
    requires
        r * r <= n,
        n < (r + 1) * (r + 1),
    ensures
        r == isqrt_spec(n),
{
    lemma_isqrt_bounds(n);
    let s = isqrt_spec(n);
    if r < s {
        assert((r + 1) * (r + 1) <= s * s) by (nonlinear_arith)
            requires
                r + 1 <= s,
        ;
    }
    if s < r {
        assert((s + 1) * (s + 1) <= r * r) by (nonlinear_arith)
            requires
                s + 1 <= r,
        ;
    }
}

/// Integer square root by bisection.
pub fn isqrt(n: u128) -> (r: u128)
    ensures
        r as nat == isqrt_spec(n as nat),
        r * r <= n,
{
    let mut lo: u128 = 0;
    let mut hi: u128 = 0x1_0000_0000_0000_0000;
    proof {
        assert((n as int) < (hi as int) * (hi as int)) by (nonlinear_arith)
            requires
                n <= u128::MAX && hi == 0x1_0000_0000_0000_0000u128,
        ;
    }
    while lo + 1 < hi
        invariant
            lo < hi,
            hi <= 0x1_0000_0000_0000_0000u128,
            (lo as int) * (lo as int) <= n as int,
            (n as int) < (hi as int) * (hi as int),
        decreases hi - lo,
    {
        let mid: u128 = lo + (hi - lo) / 2;
        proof {
            assert((mid as int) * (mid as int) <= u128::MAX) by (nonlinear_arith)
                requires
                    mid < 0x1_0000_0000_0000_0000u128,
            ;
        }
        if mid * mid <= n {
            lo = mid;
        } else {
            hi = mid;
        }
    }
    proof {
        lemma_isqrt_unique(n as nat, lo as nat);
    }
    lo
}

/// Saturate a value into the window `[-LIM, LIM]`.
pub fn clamp_to_lim(v: i64) -> (r: i64)
    ensures
        r as int == clamped(v as int),
        in_lim(r as int),
{
    if v > LIM {
        LIM
    } else if v < -LIM {
        -LIM
    } else {
        v
    }
}

/// `a * dt / SCALE` with truncation toward zero.
pub fn scale_step(a: i64, dt: i64) -> (r: i64)
    requires
        in_lim(a as int),
        0 <= dt && dt <= LIM,
    ensures
        r as int == scaled(a as int, dt as int),
        mag(r as int) <= STEP_LIM as int,
{
    let am: u128 = if a >= 0 {
        a as u128
    } else {
        (-a) as u128
    };
    proof {
        assert((am as int) * (dt as int) <= (LIM as int) * (LIM as int)) by (nonlinear_arith)
            requires
                0 <= am as int <= LIM as int && 0 <= dt as int <= LIM as int,
        ;
    }
    let prod: u128 = am * (dt as u128);
    let q: u128 = prod / (SCALE as u128);
    proof {
        vstd::arithmetic::div_mod::lemma_div_is_ordered(
            prod as int,
            (LIM as int) * (LIM as int),
            SCALE as int,
        );
    }
    let qi: i64 = q as i64;
    if a >= 0 {
        qi
    } else {
        -qi
    }
}

/// Add a bounded step onto a stored scalar and saturate the result.
pub fn offset_clamped(v: i64, step: i64) -> (r: i64)
    requires
        in_lim(v as int),
        mag(step as int) <= STEP_LIM as int,
    ensures
        r as int == clamped(v as int + step as int),
        in_lim(r as int),
{
    let s: i64 = v + step;
    clamp_to_lim(s)
}

} // verus!
