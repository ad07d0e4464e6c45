//! Deterministic pseudo-random source for the process generator.
//!
//! A 64-bit linear congruential generator, explicitly seeded: equal seeds give
//! bit-identical draw sequences, which makes every simulation replayable. A
//! standard-normal draw is approximated by the centered sum of twelve uniform
//! draws, held as a sign and a fixed-point magnitude.

use vstd::prelude::*;
use crate::fixed::ONE;

verus! {

/// Multiplier of the linear congruential step.
pub const LCG_MUL: u64 = 6_364_136_223_846_793_005;

/// Increment of the linear congruential step.
pub const LCG_INC: u64 = 1_442_695_040_888_963_407;

/// Two to the 64th power, the modulus of the generator.
pub const LCG_MOD: u128 = 18_446_744_073_709_551_616;

/// Two to the 33rd power; a uniform draw keeps the high state bits.
pub const LCG_SHIFT: u64 = 8_589_934_592;

/// Upper bound (inclusive) on the magnitude of a normal draw: six, fixed-point.
pub const NORMAL_MAG_CEIL: u64 = 6_000_000;

/// How many uniform draws make up one normal draw.
pub const DRAWS_PER_NORMAL: u64 = 12;

/// The state after one linear congruential step.
#[verifier::opaque]
pub open spec fn spec_next_state(s: u64) -> u64 {
    (((LCG_MUL * s) + LCG_INC) % (LCG_MOD as int)) as u64
}

/// The uniform value in `[0, ONE)` extracted from a state.
#[verifier::opaque]
pub open spec fn spec_uniform_of(s: u64) -> u64 {
    ((s as int / LCG_SHIFT as int) % ONE as int) as u64
}

/// The state after `n` uniform draws from state `s`.
pub open spec fn spec_state_after(s: u64, n: nat) -> u64
    decreases n,
{
    if n == 0 {
        s
    } else {
        spec_next_state(spec_state_after(s, (n - 1) as nat))
    }
}

/// The sum of the first `n` uniform draws from state `s`.
pub open spec fn spec_uniform_sum(s: u64, n: nat) -> int
    decreases n,
{
    if n == 0 {
        0
    } else {
        spec_uniform_sum(s, (n - 1) as nat) + spec_uniform_of(spec_state_after(s, n))
    }
}

/// A standard-normal draw, approximated in fixed point: magnitude `mag`
/// (scaled by [`ONE`]) with sign `neg`.
#[derive(Clone, Copy, Debug, PartialEq, Eq, Structural)]
pub struct NormalDraw {
    /// Absolute value of the draw, fixed-point; at most six.
    pub mag: u64,
    /// True when the draw is negative.
    pub neg: bool,
}

/// The normal draw that twelve uniforms from state `s` yield: their sum,
/// centered at its mean of six.
pub open spec fn spec_normal_of(s: u64) -> NormalDraw {
    let sum = spec_uniform_sum(s, DRAWS_PER_NORMAL as nat);
    if sum >= NORMAL_MAG_CEIL as int {
        NormalDraw { mag: (sum - NORMAL_MAG_CEIL) as u64, neg: false }
    } else {
        NormalDraw { mag: (NORMAL_MAG_CEIL - sum) as u64, neg: true }
    }
}

/// Every sum of `n` uniform draws lies in `[0, n * (ONE - 1)]`.
pub proof fn lemma_uniform_sum_bounds(s: u64, n: nat)
    ensures
        0 <= spec_uniform_sum(s, n) <= n * 999_999,
    decreases n,
{
    reveal(spec_uniform_of);
    if n == 0 {
    } else {
        lemma_uniform_sum_bounds(s, (n - 1) as nat);
        assert((n - 1) * 999_999 + 999_999 == n * 999_999) by (nonlinear_arith);
    }
}

/// Advances the generator by one linear congruential step.
pub fn next_state(s: u64) -> (r: u64)
    ensures
        r == spec_next_state(s),
{
    proof {
        reveal(spec_next_state);
        assert((LCG_MUL as u128) * (s as u128) <= (LCG_MUL as u128)
            * 18_446_744_073_709_551_615u128) by (nonlinear_arith)
            requires
                (s as u128) <= 18_446_744_073_709_551_615u128,
        ;
    }
    let wide: u128 = (LCG_MUL as u128) * (s as u128) + (LCG_INC as u128);
    (wide % LCG_MOD) as u64
}

/// Extracts the uniform value in `[0, ONE)` from a state.
pub fn uniform_of(s: u64) -> (r: u64)
    ensures
        r == spec_uniform_of(s),
        r < ONE,
{
    proof {
        reveal(spec_uniform_of);
    }
    (s / LCG_SHIFT) % ONE
}

/// Draws one approximate standard-normal value, returning it with the state
/// after the twelve uniform draws it consumes.
pub fn draw_normal(s: u64) -> (r: (u64, NormalDraw))
    ensures
        r.0 == spec_state_after(s, DRAWS_PER_NORMAL as nat),
        r.1 == spec_normal_of(s),
        r.1.mag <= NORMAL_MAG_CEIL,
{
    let mut state: u64 = s;
    let mut sum: u64 = 0;
    let mut i: u64 = 0;
    while i < DRAWS_PER_NORMAL
        invariant
            i <= DRAWS_PER_NORMAL,
            state == spec_state_after(s, i as nat),
            sum == spec_uniform_sum(s, i as nat),
            sum <= i * 999_999,
        decreases DRAWS_PER_NORMAL - i,
    {
        state = next_state(state);
        let u = uniform_of(state);
        sum = sum + u;
        i = i + 1;
        proof {
            lemma_uniform_sum_bounds(s, i as nat);
        }
    }
    proof {
        lemma_uniform_sum_bounds(s, DRAWS_PER_NORMAL as nat);
    }
    if sum >= NORMAL_MAG_CEIL {
        (state, NormalDraw { mag: sum - NORMAL_MAG_CEIL, neg: false })
    } else {
        (state, NormalDraw { mag: NORMAL_MAG_CEIL - sum, neg: true })
    }
}

} // verus!
