//! Simulation configuration: one immutable struct loaded per run.

use vstd::prelude::*;
use crate::errors::SimError;

verus! {

/// The stochastic process a run draws its price path from.
#[derive(Clone, Copy, Debug, PartialEq, Eq, Structural)]
pub enum ProcessKind {
    /// Geometric Brownian Motion: multiplicative steps.
    Gbm,
    /// Ornstein-Uhlenbeck: additive, mean-reverting steps.
    Ou,
}

/// The AMM model a simulation drives.
#[derive(Clone, Copy, Debug, PartialEq, Eq, Structural)]
pub enum AmmVariant {
    /// A constant-product portfolio pool over two reserves.
    Portfolio,
    /// A concentrated-liquidity pool: fixed liquidity between two
    /// square-root-price bounds.
    UniswapV3,
}

/// Immutable configuration for one run. Rates are fixed-point, scaled by
/// [`crate::fixed::ONE`]; `time_step` and `horizon` are whole time units.
#[derive(Clone, Copy, Debug, PartialEq, Eq, Structural)]
pub struct SimulationConfig {
    /// Which stochastic process generates the path.
    pub process: ProcessKind,
    /// Drift rate per time unit (fixed-point, may be negative).
    pub drift: i64,
    /// Volatility per square-root time unit (fixed-point; must be >= 0).
    pub volatility: i64,
    /// Mean-reversion rate per time unit (fixed-point; used by OU only).
    pub mean_reversion: i64,
    /// Long-run mean the OU process reverts toward (fixed-point price).
    pub long_run_mean: u64,
    /// Price at the start of the path (fixed-point).
    pub initial_price: u64,
    /// Length of one discrete step, in whole time units.
    pub time_step: u64,
    /// Total simulated time, in whole time units.
    pub horizon: u64,
    /// Seed of the pseudo-random source; equal seeds give equal paths.
    pub seed: u64,
    /// Which AMM model the simulation engine drives.
    pub variant: AmmVariant,
}

impl SimulationConfig {
    /// A configuration is valid when its volatility is non-negative, its time
    /// step is positive, and its horizon covers at least one step.
    pub open spec fn is_valid(self) -> bool {
        &&& self.volatility >= 0
        &&& self.time_step > 0
        &&& self.horizon >= self.time_step
    }

    /// How many price points a valid configuration yields.
    pub open spec fn spec_step_count(self) -> int
        recommends
            self.time_step > 0,
    {
        self.horizon as int / self.time_step as int
    }

    /// Checks the configuration before any simulation step runs.
    pub fn validate(&self) -> (r: Result<(), SimError>)
        ensures
            r is Ok <==> self.is_valid(),
            r is Err ==> r->Err_0 == SimError::InvalidConfig,
    {
        if self.volatility < 0 || self.time_step == 0 || self.horizon < self.time_step {
            Err(SimError::InvalidConfig)
        } else {
            Ok(())
        }
    }

    /// The number of steps of a validated run, computed executably.
    pub fn step_count(&self) -> (n: u64)
        requires
            self.is_valid(),
        ensures
            n == self.spec_step_count(),
    {
        self.horizon / self.time_step
    }
}

} // verus!
