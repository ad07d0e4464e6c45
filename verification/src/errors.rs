//! Error taxonomy shared by every component of the pipeline.

use vstd::prelude::*;

verus! {

/// One failure taxonomy for the whole pipeline. Every fatal error carries the
/// specific offending input: a step index, a block number, or a line number.
#[derive(Clone, Copy, Debug, PartialEq, Eq, Structural)]
pub enum SimError {
    /// Malformed or out-of-range simulation parameters, detected before any
    /// simulation step runs.
    InvalidConfig,
    /// An AMM step would violate the model's reserve invariant; carries the
    /// zero-based index of the failing step.
    InsufficientLiquidity { step: u64 },
    /// A requested block range cannot be fully served; carries the last block
    /// that was successfully retrieved.
    RangeUnavailable { last_good_block: u64 },
    /// A backtest import record failed schema validation; carries the
    /// one-based line number of the offending record.
    MalformedRecord { line: u64 },
    /// The ledger stayed unreachable after the reconnect policy was exhausted.
    ConnectivityFailure,
}

} // verus!
