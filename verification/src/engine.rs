//! Simulation engine: drives the AMM model over a generated price path.
//!
//! For each price point, in order, the engine quotes the AMM at the point's
//! price, applies the implied trade, and commits one trade record. Steps are
//! strictly sequential: the reserve state of step `n + 1` is the state that
//! step `n` left behind. The run completes when every point is consumed, or
//! fails at the first rejected trade, keeping the records of the earlier
//! steps for diagnostics.

use vstd::prelude::*;
use crate::amm::lemma_portfolio_apply_preserves;
use crate::amm::lemma_v3_apply_preserves;
use crate::amm::spec_amm_apply;
use crate::amm::spec_amm_quote;
use crate::amm::spec_portfolio_apply;
use crate::amm::spec_v3_apply;
use crate::amm::AmmModel;
use crate::amm::ImpliedTrade;
use crate::amm::PortfolioAmm;
use crate::amm::TradeRecord;
use crate::amm::UniswapV3Amm;
use crate::amm::MAX_RESERVE;
use crate::amm::MAX_SQRT;
use crate::config::AmmVariant;
use crate::config::SimulationConfig;
use crate::errors::SimError;
use crate::fixed::clamp_u128;
use crate::fixed::isqrt_u128;
use crate::fixed::spec_clamp;
use crate::fixed::spec_isqrt;
use crate::fixed::MAX_PRICE;
use crate::fixed::ONE;
use crate::fixed::PRICE_FLOOR;
use crate::process::generate_path;
use crate::process::lemma_price_at_bounds;
use crate::process::spec_path;
use crate::process::spec_point_at;
use crate::process::spec_price_at;

verus! {

/// Reserves and liquidity every fresh pool starts with.
pub const BASE_LIQUIDITY: u64 = 1_000_000_000;

/// Terminal status of one simulation run.
#[derive(Clone, Copy, Debug, PartialEq, Eq, Structural)]
pub enum RunStatus {
    /// Every configured step was consumed.
    Completed,
    /// The run stopped at the zero-based `step` with `error`; the records of
    /// the earlier steps are preserved.
    Failed { step: u64, error: SimError },
}

/// The output of one run: one trade record per committed step, and the
/// terminal status.
#[derive(Debug)]
pub struct SimRun {
    /// One record per committed step, in step order.
    pub records: Vec<TradeRecord>,
    /// How the run ended.
    pub status: RunStatus,
}

/// The pool a run starts from: reserves (or a tick range) centered on the
/// configured initial price.
#[verifier::opaque]
pub open spec fn spec_initial_amm(c: SimulationConfig) -> AmmModel {
    let p0 = spec_price_at(c, 0);
    match c.variant {
        AmmVariant::Portfolio => AmmModel::Portfolio(
            PortfolioAmm {
                reserve_base: BASE_LIQUIDITY,
                reserve_quote: spec_clamp(
                    BASE_LIQUIDITY * p0 / (ONE as int),
                    1,
                    MAX_RESERVE as int,
                ) as u64,
            },
        ),
        AmmVariant::UniswapV3 => {
            let sp = spec_clamp(spec_isqrt(p0 * ONE), 1, MAX_SQRT as int) as u64;
            let lo = if sp / 2 >= 1 {
                sp / 2
            } else {
                1
            };
            let hi = spec_clamp(2 * sp, sp as int, MAX_SQRT as int) as u64;
            AmmModel::UniswapV3(
                UniswapV3Amm {
                    liquidity: BASE_LIQUIDITY,
                    sqrt_price: sp,
                    sqrt_lower: lo,
                    sqrt_upper: hi,
                },
            )
        },
    }
}

/// The record committed at step `i`: the trade's amounts and direction, the
/// point's step number, and the pool price after the trade.
pub open spec fn spec_record(c: SimulationConfig, i: nat, t: ImpliedTrade, after: AmmModel) -> TradeRecord {
    TradeRecord {
        block_or_step: (i * c.time_step) as u64,
        amount_in: t.amount_in,
        amount_out: t.amount_out,
        asset_in: t.asset_in,
        asset_out: t.asset_out,
        resulting_price: after.spec_price(),
    }
}

/// The engine state after the first `n` steps: the pool, the committed
/// records, and the status. A failure freezes the state.
pub open spec fn spec_run_state(c: SimulationConfig, n: nat) -> (AmmModel, Seq<TradeRecord>, RunStatus)
    decreases n,
{
    if n == 0 {
        (spec_initial_amm(c), Seq::<TradeRecord>::empty(), RunStatus::Completed)
    } else {
        let prev = spec_run_state(c, (n - 1) as nat);
        if !(prev.2 is Completed) {
            prev
        } else {
            let i = (n - 1) as nat;
            let t = spec_amm_quote(prev.0, spec_price_at(c, i));
            match spec_amm_apply(prev.0, t) {
                Some(next) => (next, prev.1.push(spec_record(c, i, t, next)), RunStatus::Completed),
                None => (
                    prev.0,
                    prev.1,
                    RunStatus::Failed {
                        step: i as u64,
                        error: SimError::InsufficientLiquidity { step: i as u64 },
                    },
                ),
            }
        }
    }
}

/// Builds the starting pool for a configuration.
pub fn initial_amm(c: &SimulationConfig) -> (a: AmmModel)
    ensures
        a == spec_initial_amm(*c),
        a.wf(),
{
    proof {
        reveal(spec_initial_amm);
    }
    let p0: u64 = clamp_u128(c.initial_price as u128, PRICE_FLOOR, MAX_PRICE);
    proof {
        assert(p0 == spec_price_at(*c, 0));
    }
    match c.variant {
        AmmVariant::Portfolio => {
            let rq: u64 = clamp_u128(
                (BASE_LIQUIDITY as u128) * (p0 as u128) / (ONE as u128),
                1,
                MAX_RESERVE,
            );
            AmmModel::Portfolio(PortfolioAmm { reserve_base: BASE_LIQUIDITY, reserve_quote: rq })
        },
        AmmVariant::UniswapV3 => {
            proof {
                assert((p0 as u128) * (ONE as u128) <= 1_000_000_000_000_000_000_000_000u128)
                    by (nonlinear_arith)
                    requires
                        p0 as u128 <= 1_000_000_000_000_000_000u128,
                ;
            }
            let spr: u128 = isqrt_u128((p0 as u128) * (ONE as u128));
            let sp: u64 = clamp_u128(spr, 1, MAX_SQRT);
            let lo: u64 = if sp / 2 >= 1 {
                sp / 2
            } else {
                1
            };
            let hi: u64 = if 2 * sp > MAX_SQRT {
                MAX_SQRT
            } else {
                2 * sp
            };
            AmmModel::UniswapV3(
                UniswapV3Amm {
                    liquidity: BASE_LIQUIDITY,
                    sqrt_price: sp,
                    sqrt_lower: lo,
                    sqrt_upper: hi,
                },
            )
        },
    }
}

/// Runs one simulation: validates the configuration, generates the price
/// path, and steps the AMM over it, quoting then applying at every point in
/// order. Rejects an invalid configuration with `InvalidConfig` before any
/// step runs; stops at the first rejected trade, keeping the earlier records.
pub fn run_simulation(c: &SimulationConfig) -> (r: Result<SimRun, SimError>)
    ensures
        !c.is_valid() ==> (r matches Err(e) && e == SimError::InvalidConfig),
        c.is_valid() ==> (r matches Ok(run) && run.records@ == spec_run_state(
            *c,
            c.spec_step_count() as nat,
        ).1 && run.status == spec_run_state(*c, c.spec_step_count() as nat).2),
{
    let n: u64 = match c.validate() {
        Err(e) => {
            return Err(e);
        },
        Ok(()) => c.step_count(),
    };
    let points = match generate_path(c) {
        Err(e) => {
            return Err(e);
        },
        Ok(v) => v,
    };
    let mut amm: AmmModel = initial_amm(c);
    let mut records: Vec<TradeRecord> = Vec::new();
    let mut status: RunStatus = RunStatus::Completed;
    let mut i: u64 = 0;
    while i < n
        invariant
            c.is_valid(),
            n == c.spec_step_count(),
            i <= n,
            points@ == spec_path(*c),
            points@.len() == n,
            amm == spec_run_state(*c, i as nat).0,
            records@ == spec_run_state(*c, i as nat).1,
            status == spec_run_state(*c, i as nat).2,
            amm.wf(),
        decreases n - i,
    {
        match status {
            RunStatus::Completed => {
                let point = points[i as usize];
                proof {
                    lemma_price_at_bounds(*c, i as nat);
                    assert(points@[i as int] == spec_point_at(*c, i as nat));
                }
                let t: ImpliedTrade = amm.quote(point.price);
                match amm.apply(&t, i) {
                    Ok(()) => {
                        let p: u64 = amm.price();
                        records.push(
                            TradeRecord {
                                block_or_step: point.step,
                                amount_in: t.amount_in,
                                amount_out: t.amount_out,
                                asset_in: t.asset_in,
                                asset_out: t.asset_out,
                                resulting_price: p,
                            },
                        );
                    },
                    Err(e) => {
                        status = RunStatus::Failed { step: i, error: e };
                    },
                }
            },
            RunStatus::Failed { .. } => {},
        }
        i = i + 1;
    }
    Ok(SimRun { records, status })
}

/// Law: a completed run commits exactly one record per configured step; a
/// failed run carries the failing step index and the insufficient-liquidity
/// error, and keeps exactly the records of the steps before that index.
pub proof fn lemma_run_record_count(c: SimulationConfig, n: nat)
    requires
        n <= 0xFFFF_FFFF_FFFF_FFFF,
    ensures
        spec_run_state(c, n).2 is Completed ==> spec_run_state(c, n).1.len() == n,
        spec_run_state(c, n).2 matches RunStatus::Failed { step, error } ==> step < n
            && spec_run_state(c, n).1.len() == step && spec_run_state(c, n).1 == spec_run_state(
            c,
            step as nat,
        ).1 && error == (SimError::InsufficientLiquidity { step }),
    decreases n,
{
    if n == 0 {
    } else {
        lemma_run_record_count(c, (n - 1) as nat);
    }
}

/// The starting pool of every configuration satisfies its curve invariant.
pub proof fn lemma_initial_amm_wf(c: SimulationConfig)
    ensures
        spec_initial_amm(c).wf(),
{
    reveal(spec_initial_amm);
}

/// Law: over the whole run — any sequence of engine steps — the pool never
/// leaves a state that violates its curve invariant.
pub proof fn lemma_run_state_wf(c: SimulationConfig, n: nat)
    ensures
        spec_run_state(c, n).0.wf(),
    decreases n,
{
    if n == 0 {
        lemma_initial_amm_wf(c);
    } else {
        lemma_run_state_wf(c, (n - 1) as nat);
        let prev = spec_run_state(c, (n - 1) as nat);
        if prev.2 is Completed {
            let t = spec_amm_quote(prev.0, spec_price_at(c, (n - 1) as nat));
            match prev.0 {
                AmmModel::Portfolio(p) => {
                    if spec_portfolio_apply(p, t) is Some {
                        lemma_portfolio_apply_preserves(p, t);
                    }
                },
                AmmModel::UniswapV3(v) => {
                    if spec_v3_apply(v, t) is Some {
                        lemma_v3_apply_preserves(v, t);
                    }
                },
            }
        }
    }
}

/// Law: two runs with an identical configuration, seed included, produce
/// bit-identical trade-record sequences and statuses.
pub proof fn lemma_run_deterministic(a: SimulationConfig, b: SimulationConfig, n: nat)
    requires
        a == b,
    ensures
        spec_run_state(a, n) == spec_run_state(b, n),
{
}

} // verus!
