//! Process generator: discretized synthetic price paths.
//!
//! A path is a pure function of its configuration. The Geometric Brownian
//! Motion step multiplies the price by `1 + drift*dt + volatility*sqrt(dt)*Z`;
//! the Ornstein-Uhlenbeck step adds `rate*(mean - price)*dt` and the same
//! volatility term in absolute price units. `Z` is the seeded normal draw of
//! [`crate::rng`]. Per-step relative change and reversion saturate at 100%,
//! volatility saturates at [`VOL_CEIL`], and prices stay inside
//! `[PRICE_FLOOR, MAX_PRICE]`, so every step is total.

use vstd::prelude::*;
use vstd::arithmetic::div_mod::lemma_div_is_ordered;
use vstd::arithmetic::div_mod::lemma_fundamental_div_mod;
use vstd::arithmetic::mul::lemma_mul_inequality;
use vstd::arithmetic::mul::lemma_mul_strict_inequality;
use crate::config::ProcessKind;
use crate::config::SimulationConfig;
use crate::errors::SimError;
use crate::fixed::clamp_u128;
use crate::fixed::isqrt_u128;
use crate::fixed::mag_i64;
use crate::fixed::spec_clamp;
use crate::fixed::spec_isqrt;
use crate::fixed::spec_mag_i64;
use crate::fixed::MAX_PRICE;
use crate::fixed::ONE;
use crate::fixed::PRICE_FLOOR;
use crate::rng::draw_normal;
use crate::rng::spec_normal_of;
use crate::rng::spec_state_after;
use crate::rng::NormalDraw;
use crate::rng::DRAWS_PER_NORMAL;
use crate::rng::NORMAL_MAG_CEIL;

verus! {

/// One point of a price path: a fixed-point price at a whole time step (for
/// synthetic paths) or at a block number (for normalized on-chain events).
#[derive(Clone, Copy, Debug, PartialEq, Eq, Structural)]
pub struct PricePoint {
    /// The time step or block number of the observation.
    pub step: u64,
    /// The fixed-point price at that step.
    pub price: u64,
}

/// Volatility saturates at one thousand (fixed-point) inside a step.
pub const VOL_CEIL: u64 = 1_000_000_000;

/// `ONE * ONE`: scales a whole time step into squared fixed point for the
/// square root.
pub const ONE_SQUARED: u64 = 1_000_000_000_000;

/// The fixed-point square root of a whole number of time units.
pub open spec fn spec_sqrt_dt(dt: u64) -> int {
    spec_isqrt(dt as int * ONE_SQUARED as int)
}

/// The saturated volatility term of one step: `vol * sqrt(dt) * |Z|`, in
/// fixed point, capped at `cap`.
pub open spec fn spec_vol_term(vol: u64, dt: u64, z: NormalDraw, cap: u64) -> int {
    let volc = spec_clamp(vol as int, 0, VOL_CEIL as int);
    spec_clamp(volc * spec_sqrt_dt(dt) / ONE as int * z.mag / ONE as int, 0, cap as int)
}

/// The Geometric Brownian Motion step: the price is scaled by one plus the
/// signed net of the drift and volatility terms, the net saturating at 100%.
#[verifier::opaque]
pub open spec fn spec_gbm_step(price: u64, drift: i64, vol: u64, dt: u64, z: NormalDraw) -> u64 {
    let dneg = drift < 0;
    let tdrift = spec_clamp(spec_mag_i64(drift) * dt, 0, ONE as int);
    let tvol = spec_vol_term(vol, dt, z, ONE);
    let same = dneg == z.neg;
    let net = if same {
        spec_clamp(tdrift + tvol, 0, ONE as int)
    } else if tdrift >= tvol {
        tdrift - tvol
    } else {
        tvol - tdrift
    };
    let neg = if same {
        dneg
    } else if tdrift >= tvol {
        dneg
    } else {
        z.neg
    };
    let factor = if neg {
        ONE as int - net
    } else {
        ONE as int + net
    };
    spec_clamp(price as int * factor / ONE as int, PRICE_FLOOR as int, MAX_PRICE as int) as u64
}

/// The Ornstein-Uhlenbeck step: the price moves toward (or, under a negative
/// rate, away from) the long-run mean by a saturated fraction of the gap,
/// plus the signed volatility term in absolute price units.
#[verifier::opaque]
pub open spec fn spec_ou_step(price: u64, rate: i64, mean: u64, vol: u64, dt: u64, z: NormalDraw) -> u64 {
    let rneg = rate < 0;
    let gap_up = mean >= price;
    let gap = if gap_up {
        mean - price
    } else {
        price - mean
    };
    let frac = spec_clamp(spec_mag_i64(rate) * dt, 0, ONE as int);
    let rev = gap * frac / ONE as int;
    let rev_up = gap_up != rneg;
    let vterm = spec_vol_term(vol, dt, z, MAX_PRICE);
    let up = (if rev_up {
        rev
    } else {
        0
    }) + (if !z.neg {
        vterm
    } else {
        0
    });
    let down = (if !rev_up {
        rev
    } else {
        0
    }) + (if z.neg {
        vterm
    } else {
        0
    });
    spec_clamp(price as int + up - down, PRICE_FLOOR as int, MAX_PRICE as int) as u64
}

/// One step of the configured process.
pub open spec fn spec_step_price(c: SimulationConfig, price: u64, z: NormalDraw) -> u64 {
    match c.process {
        ProcessKind::Gbm => spec_gbm_step(price, c.drift, c.volatility as u64, c.time_step, z),
        ProcessKind::Ou => spec_ou_step(
            price,
            c.mean_reversion,
            c.long_run_mean,
            c.volatility as u64,
            c.time_step,
            z,
        ),
    }
}

/// The generator state (price) before step `i`.
pub open spec fn spec_price_at(c: SimulationConfig, i: nat) -> u64
    decreases i,
{
    if i == 0 {
        spec_clamp(c.initial_price as int, PRICE_FLOOR as int, MAX_PRICE as int) as u64
    } else {
        spec_step_price(
            c,
            spec_price_at(c, (i - 1) as nat),
            spec_normal_of(spec_rng_at(c, (i - 1) as nat)),
        )
    }
}

/// The random-source state before step `i`.
pub open spec fn spec_rng_at(c: SimulationConfig, i: nat) -> u64
    decreases i,
{
    if i == 0 {
        c.seed
    } else {
        spec_state_after(spec_rng_at(c, (i - 1) as nat), DRAWS_PER_NORMAL as nat)
    }
}

/// The `i`-th point of the path of configuration `c`.
pub open spec fn spec_point_at(c: SimulationConfig, i: nat) -> PricePoint {
    PricePoint { step: (i * c.time_step) as u64, price: spec_price_at(c, i) }
}

/// The whole path of configuration `c`: `horizon / time_step` points.
pub open spec fn spec_path(c: SimulationConfig) -> Seq<PricePoint> {
    Seq::new(c.spec_step_count() as nat, |i: int| spec_point_at(c, i as nat))
}

/// Executes the Geometric Brownian Motion step.
#[verifier::rlimit(50)]
pub fn gbm_step(price: u64, drift: i64, vol: u64, dt: u64, z: NormalDraw) -> (p: u64)
    requires
        z.mag <= NORMAL_MAG_CEIL,
    ensures
        p == spec_gbm_step(price, drift, vol, dt, z),
        PRICE_FLOOR <= p <= MAX_PRICE,
{
    proof {
        reveal(spec_gbm_step);
    }
    let dmag: u64 = mag_i64(drift);
    let dneg: bool = drift < 0;
    proof {
        assert((dmag as u128) * (dt as u128) < 340_282_366_920_938_463_463_374_607_431_768_211_455u128)
            by (nonlinear_arith)
            requires
                dmag as u128 <= 9_223_372_036_854_775_808u128,
                dt as u128 <= 18_446_744_073_709_551_615u128,
        ;
    }
    let tdrift: u64 = clamp_u128((dmag as u128) * (dt as u128), 0, ONE);
    let tvol: u64 = vol_term(vol, dt, z, ONE);
    let same: bool = dneg == z.neg;
    let net: u64 = if same {
        if tdrift + tvol > ONE {
            ONE
        } else {
            tdrift + tvol
        }
    } else if tdrift >= tvol {
        tdrift - tvol
    } else {
        tvol - tdrift
    };
    let neg: bool = if same {
        dneg
    } else if tdrift >= tvol {
        dneg
    } else {
        z.neg
    };
    let factor: u64 = if neg {
        ONE - net
    } else {
        ONE + net
    };
    proof {
        assert((price as u128) * (factor as u128) < 340_282_366_920_938_463_463_374_607_431_768_211_455u128)
            by (nonlinear_arith)
            requires
                price as u128 <= 18_446_744_073_709_551_615u128,
                factor as u128 <= 2_000_000u128,
        ;
    }
    clamp_u128((price as u128) * (factor as u128) / (ONE as u128), PRICE_FLOOR, MAX_PRICE)
}

/// Executes the saturated volatility term shared by both processes.
#[verifier::rlimit(50)]
pub fn vol_term(vol: u64, dt: u64, z: NormalDraw, cap: u64) -> (t: u64)
    requires
        z.mag <= NORMAL_MAG_CEIL,
    ensures
        t == spec_vol_term(vol, dt, z, cap),
{
    let volc: u64 = if vol > VOL_CEIL {
        VOL_CEIL
    } else {
        vol
    };
    proof {
        assert((dt as u128) * (ONE_SQUARED as u128) < 85_070_591_730_234_615_865_843_651_857_942_052_864u128)
            by (nonlinear_arith)
            requires
                dt as u128 <= 18_446_744_073_709_551_615u128,
        ;
    }
    let sq: u128 = isqrt_u128((dt as u128) * (ONE_SQUARED as u128));
    let prod: u128 = {
        proof {
            assert((volc as u128) * sq <= 9_223_372_036_854_775_808_000_000_000u128)
                by (nonlinear_arith)
                requires
                    volc as u128 <= 1_000_000_000u128,
                    sq <= 9_223_372_036_854_775_808u128,
            ;
        }
        (volc as u128) * sq
    };
    proof {
        lemma_div_is_ordered(prod as int, 9_223_372_036_854_775_808_000_000_000, ONE as int);
    }
    let tv: u128 = prod / (ONE as u128);
    proof {
        assert(tv * (z.mag as u128) < 340_282_366_920_938_463_463_374_607_431_768_211_455u128)
            by (nonlinear_arith)
            requires
                tv <= 9_223_372_036_854_775_808_000_000u128,
                z.mag as u128 <= 6_000_000u128,
        ;
    }
    clamp_u128(tv * (z.mag as u128) / (ONE as u128), 0, cap)
}

/// Executes the Ornstein-Uhlenbeck step.
#[verifier::rlimit(50)]
pub fn ou_step(price: u64, rate: i64, mean: u64, vol: u64, dt: u64, z: NormalDraw) -> (p: u64)
    requires
        z.mag <= NORMAL_MAG_CEIL,
    ensures
        p == spec_ou_step(price, rate, mean, vol, dt, z),
        PRICE_FLOOR <= p <= MAX_PRICE,
{
    proof {
        reveal(spec_ou_step);
    }
    let rmag: u64 = mag_i64(rate);
    let rneg: bool = rate < 0;
    let gap_up: bool = mean >= price;
    let gap: u64 = if gap_up {
        mean - price
    } else {
        price - mean
    };
    proof {
        assert((rmag as u128) * (dt as u128) < 340_282_366_920_938_463_463_374_607_431_768_211_455u128)
            by (nonlinear_arith)
            requires
                rmag as u128 <= 9_223_372_036_854_775_808u128,
                dt as u128 <= 18_446_744_073_709_551_615u128,
        ;
    }
    let frac: u64 = clamp_u128((rmag as u128) * (dt as u128), 0, ONE);
    proof {
        assert((gap as u128) * (frac as u128) < 340_282_366_920_938_463_463_374_607_431_768_211_455u128)
            by (nonlinear_arith)
            requires
                gap as u128 <= 18_446_744_073_709_551_615u128,
                frac as u128 <= 1_000_000u128,
        ;
    }
    let rev: u128 = (gap as u128) * (frac as u128) / (ONE as u128);
    let rev_up: bool = gap_up != rneg;
    let vterm: u64 = vol_term(vol, dt, z, MAX_PRICE);
    let up: u128 = (if rev_up {
        rev
    } else {
        0
    }) + (if !z.neg {
        vterm as u128
    } else {
        0
    });
    let down: u128 = (if !rev_up {
        rev
    } else {
        0
    }) + (if z.neg {
        vterm as u128
    } else {
        0
    });
    let base: u128 = (price as u128) + up;
    if base >= down {
        clamp_u128(base - down, PRICE_FLOOR, MAX_PRICE)
    } else {
        PRICE_FLOOR
    }
}

/// Executes one step of the configured process.
pub fn step_price(c: &SimulationConfig, price: u64, z: NormalDraw) -> (p: u64)
    requires
        z.mag <= NORMAL_MAG_CEIL,
        c.volatility >= 0,
    ensures
        p == spec_step_price(*c, price, z),
{
    match c.process {
        ProcessKind::Gbm => gbm_step(price, c.drift, c.volatility as u64, c.time_step, z),
        ProcessKind::Ou => ou_step(
            price,
            c.mean_reversion,
            c.long_run_mean,
            c.volatility as u64,
            c.time_step,
            z,
        ),
    }
}

/// Every point's step number stays within the horizon.
proof fn lemma_step_in_horizon(c: SimulationConfig, i: int)
    requires
        c.is_valid(),
        0 <= i <= c.spec_step_count(),
    ensures
        i * c.time_step <= c.horizon,
{
    lemma_fundamental_div_mod(c.horizon as int, c.time_step as int);
    lemma_mul_inequality(i, c.spec_step_count(), c.time_step as int);
}

/// Produces the full price path of a configuration: exactly
/// `horizon / time_step` points, deterministically from the seed.
///
/// Rejects an invalid configuration with `InvalidConfig` before producing
/// any point.
pub fn generate_path(c: &SimulationConfig) -> (r: Result<Vec<PricePoint>, SimError>)
    ensures
        c.is_valid() ==> (r matches Ok(v) && v@ == spec_path(*c) && v@.len()
            == c.spec_step_count()),
        !c.is_valid() ==> (r matches Err(e) && e == SimError::InvalidConfig),
{
    match c.validate() {
        Err(e) => {
            return Err(e);
        },
        Ok(()) => {},
    }
    let n: u64 = c.step_count();
    let mut points: Vec<PricePoint> = Vec::new();
    let mut price: u64 = clamp_u128(c.initial_price as u128, PRICE_FLOOR, MAX_PRICE);
    let mut state: u64 = c.seed;
    let mut i: u64 = 0;
    while i < n
        invariant
            c.is_valid(),
            n == c.spec_step_count(),
            i <= n,
            price == spec_price_at(*c, i as nat),
            state == spec_rng_at(*c, i as nat),
            points@.len() == i,
            forall|j: int| 0 <= j < i ==> points@[j] == spec_point_at(*c, j as nat),
        decreases n - i,
    {
        proof {
            lemma_step_in_horizon(*c, i as int);
        }
        let ts: u64 = i * c.time_step;
        points.push(PricePoint { step: ts, price });
        let drawn = draw_normal(state);
        price = step_price(c, price, drawn.1);
        state = drawn.0;
        i = i + 1;
    }
    proof {
        assert(points@ =~= spec_path(*c));
    }
    Ok(points)
}

/// Every path price stays within `[PRICE_FLOOR, MAX_PRICE]`.
pub proof fn lemma_price_at_bounds(c: SimulationConfig, i: nat)
    ensures
        PRICE_FLOOR <= spec_price_at(c, i) <= MAX_PRICE,
    decreases i,
{
    reveal(spec_gbm_step);
    reveal(spec_ou_step);
    if i == 0 {
    } else {
        lemma_price_at_bounds(c, (i - 1) as nat);
    }
}

/// Law: a valid configuration yields exactly `horizon / time_step` points,
/// with strictly increasing step numbers.
pub proof fn lemma_path_shape(c: SimulationConfig)
    requires
        c.is_valid(),
    ensures
        spec_path(c).len() == c.spec_step_count(),
        forall|i: int, j: int|
            0 <= i < j < spec_path(c).len() ==> spec_path(c)[i].step < spec_path(c)[j].step,
{
    assert forall|i: int, j: int|
        0 <= i < j < spec_path(c).len() implies spec_path(c)[i].step < spec_path(c)[j].step by {
        lemma_step_in_horizon(c, i);
        lemma_step_in_horizon(c, j);
        lemma_mul_strict_inequality(i, j, c.time_step as int);
    }
}

/// Law: two runs with an identical configuration, seed included, produce
/// bit-identical price paths.
pub proof fn lemma_path_deterministic(a: SimulationConfig, b: SimulationConfig)
    requires
        a == b,
    ensures
        spec_path(a) == spec_path(b),
{
}

} // verus!
