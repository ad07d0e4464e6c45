//! Saturating fixed-point arithmetic over unsigned integers.
//!
//! Every price, rate, and volatility in the crate is a fixed-point number
//! scaled by [`ONE`]. Prices live in `[PRICE_FLOOR, MAX_PRICE]`; per-step
//! relative changes saturate at 100%. Saturation keeps every step total, so a
//! whole simulation is a pure function of its configuration.

use vstd::prelude::*;

verus! {

/// The fixed-point scale: a value of `ONE` means `1.0`.
pub const ONE: u64 = 1_000_000;

/// Largest representable price (one trillion, fixed-point).
pub const MAX_PRICE: u64 = 1_000_000_000_000_000_000;

/// Smallest price a path may reach (one millionth, fixed-point). Keeping
/// prices strictly positive keeps every AMM quote well defined.
pub const PRICE_FLOOR: u64 = 1;

/// Two to the 63rd power, the bisection ceiling of [`isqrt_u128`].
pub const SQRT_CEIL: u128 = 9_223_372_036_854_775_808;

/// Two to the 126th power, the largest argument [`isqrt_u128`] accepts.
pub const SQRT_ARG_CEIL: u128 = 85_070_591_730_234_615_865_843_651_857_942_052_864;

/// Clamps a mathematical integer into `[lo, hi]`.
pub open spec fn spec_clamp(x: int, lo: int, hi: int) -> int {
    if x < lo {
        lo
    } else if x > hi {
        hi
    } else {
        x
    }
}

/// Clamps a wide intermediate value into a `u64` interval.
pub fn clamp_u128(x: u128, lo: u64, hi: u64) -> (r: u64)
    requires
        lo <= hi,
    ensures
        r == spec_clamp(x as int, lo as int, hi as int),
{
    if x < lo as u128 {
        lo
    } else if x > hi as u128 {
        hi
    } else {
        x as u64
    }
}

/// The absolute value of a signed fixed-point rate.
pub open spec fn spec_mag_i64(d: i64) -> int {
    if d >= 0 {
        d as int
    } else {
        -(d as int)
    }
}

/// Computes the absolute value of a signed fixed-point rate.
pub fn mag_i64(d: i64) -> (m: u64)
    ensures
        m == spec_mag_i64(d),
{
    if d >= 0 {
        d as u64
    } else {
        let wide: i128 = -(d as i128);
        wide as u64
    }
}

/// Holds exactly of the integer square root of `x`.
pub open spec fn is_isqrt(x: int, r: int) -> bool {
    &&& 0 <= r
    &&& r * r <= x
    &&& x < (r + 1) * (r + 1)
}

/// The integer square root as a mathematical function: the unique `r`
/// satisfying [`is_isqrt`].
pub open spec fn spec_isqrt(x: int) -> int {
    choose|r: int| is_isqrt(x, r)
}

/// The integer square root is unique, so any witness equals [`spec_isqrt`].
pub proof fn lemma_isqrt_agrees(x: int, r: int)
    requires
        is_isqrt(x, r),
    ensures
        r == spec_isqrt(x),
        is_isqrt(x, spec_isqrt(x)),
{
    let c = spec_isqrt(x);
    assert(is_isqrt(x, c)) by {
        assert(exists|w: int| is_isqrt(x, w)) by {
            assert(is_isqrt(x, r));
        }
    }
    assert(r == c) by (nonlinear_arith)
        requires
            0 <= r,
            0 <= c,
            r * r <= x,
            x < (r + 1) * (r + 1),
            c * c <= x,
            x < (c + 1) * (c + 1),
    ;
}

/// Computes the integer square root by bisection.
pub fn isqrt_u128(x: u128) -> (r: u128)
    requires
        x < SQRT_ARG_CEIL,
    ensures
        is_isqrt(x as int, r as int),
        r as int == spec_isqrt(x as int),
        r < SQRT_CEIL,
{
    let mut lo: u128 = 0;
    if x > 0 {
        // Bisection bounds: lo * lo <= x < hi * hi throughout.
        let mut hi: u128 = SQRT_CEIL;
        assert(SQRT_CEIL * SQRT_CEIL == SQRT_ARG_CEIL) by (nonlinear_arith);
        while lo + 1 < hi
            invariant
                lo < hi,
                hi <= SQRT_CEIL,
                lo * lo <= x,
                x < hi * hi,
            decreases hi - lo,
        {
            let mid: u128 = lo + (hi - lo) / 2;
            assert(mid * mid <= SQRT_ARG_CEIL) by (nonlinear_arith)
                requires
                    0 <= mid,
                    mid <= SQRT_CEIL,
            ;
            if mid * mid <= x {
                lo = mid;
            } else {
                hi = mid;
            }
        }
    }
    proof {
        lemma_isqrt_agrees(x as int, lo as int);
    }
    lo
}

} // verus!
