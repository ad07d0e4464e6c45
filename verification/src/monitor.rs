//! Live monitor policy: the decision core of the on-chain event stream.
//!
//! The subscription itself is asynchronous I/O and lives with the caller:
//! a loop that receives ledger notifications, sleeps, and reconnects. Every
//! decision is made here and verified — which record to forward to the sink,
//! when to reconnect and from which block to resume, how long the exponential
//! backoff waits, when the retry budget is exhausted and the failure must be
//! surfaced, and that cancellation is honored between deliveries.

use vstd::prelude::*;
use crate::amm::TradeRecord;
use crate::backtest::spec_normalize;
use crate::backtest::normalize_event;
use crate::backtest::RawSwapEvent;

verus! {

/// Longest backoff delay the policy ever asks for, in milliseconds.
pub const DELAY_CAP: u64 = 60_000;

/// Largest exponent the backoff computes exactly before saturating.
pub const BACKOFF_EXP_CAP: u64 = 20;

/// Reconnect policy of one monitor session: how many reconnects may be
/// attempted, and the base delay the exponential backoff starts from.
#[derive(Clone, Copy, Debug, PartialEq, Eq, Structural)]
pub struct MonitorConfig {
    /// How many consecutive reconnect attempts are allowed.
    pub max_retries: u64,
    /// Base backoff delay in milliseconds; doubles per consecutive failure.
    pub backoff_base: u64,
}

/// Running state of one monitor session.
#[derive(Clone, Copy, Debug, PartialEq, Eq, Structural)]
pub struct MonitorState {
    /// The last block whose record was confirmed to the sink; a reconnect
    /// resumes from here.
    pub last_confirmed_block: u64,
    /// Consecutive reconnect attempts since the last delivered event.
    pub retries_used: u64,
}

/// One notification the surrounding loop hands to the policy.
#[derive(Clone, Copy, Debug, PartialEq, Eq, Structural)]
pub enum MonitorEvent {
    /// A swap event arrived on the subscription.
    Swap(RawSwapEvent),
    /// The subscription dropped (transient connectivity failure).
    Disconnected,
    /// The operator cancelled the monitor; checked between deliveries.
    Cancelled,
}

/// What the surrounding loop must do next.
#[derive(Clone, Copy, Debug, PartialEq, Eq, Structural)]
pub enum MonitorAction {
    /// Forward this normalized record to the sink.
    Emit(TradeRecord),
    /// Resubscribe from `from_block` after waiting `delay_ms`.
    Reconnect { from_block: u64, delay_ms: u64 },
    /// The retry budget is exhausted: surface `ConnectivityFailure`.
    Fail,
    /// Stop cleanly without touching in-flight records.
    Stop,
}

/// Two to the `e`-th power.
pub open spec fn spec_pow2(e: nat) -> nat
    decreases e,
{
    if e == 0 {
        1
    } else {
        2 * spec_pow2((e - 1) as nat)
    }
}

/// The backoff delay before reconnect attempt `retry`: the base doubled
/// `retry` times, saturating at [`DELAY_CAP`].
pub open spec fn spec_backoff_delay(cfg: MonitorConfig, retry: u64) -> u64 {
    if retry >= BACKOFF_EXP_CAP {
        DELAY_CAP
    } else if cfg.backoff_base * spec_pow2(retry as nat) > DELAY_CAP {
        DELAY_CAP
    } else {
        (cfg.backoff_base * spec_pow2(retry as nat)) as u64
    }
}

/// The powers of two at the backoff saturation boundary.
proof fn lemma_pow2_vals()
    ensures
        spec_pow2(19) == 524_288,
        spec_pow2(20) == 1_048_576,
{
    reveal_with_fuel(spec_pow2, 21);
}

/// Powers of two grow monotonically.
proof fn lemma_pow2_mono(a: nat, b: nat)
    requires
        a <= b,
    ensures
        spec_pow2(a) <= spec_pow2(b),
    decreases b,
{
    if a < b {
        lemma_pow2_mono(a, (b - 1) as nat);
    }
}

/// Computes the exponential backoff delay before reconnect attempt `retry`.
pub fn backoff_delay(cfg: &MonitorConfig, retry: u64) -> (d: u64)
    ensures
        d == spec_backoff_delay(*cfg, retry),
        d <= DELAY_CAP,
{
    if retry >= BACKOFF_EXP_CAP {
        return DELAY_CAP;
    }
    let mut factor: u64 = 1;
    let mut j: u64 = 0;
    while j < retry
        invariant
            j <= retry,
            retry < BACKOFF_EXP_CAP,
            factor == spec_pow2(j as nat),
            factor <= 524_288,
        decreases retry - j,
    {
        proof {
            lemma_pow2_mono((j + 1) as nat, 19);
            lemma_pow2_vals();
        }
        factor = factor * 2;
        j = j + 1;
    }
    proof {
        assert((cfg.backoff_base as u128) * (factor as u128)
            <= 19_342_813_113_834_066_795_298_816u128) by (nonlinear_arith)
            requires
                cfg.backoff_base as u128 <= 18_446_744_073_709_551_615u128,
                factor as u128 <= 1_048_576u128,
        ;
    }
    let wide: u128 = (cfg.backoff_base as u128) * (factor as u128);
    if wide > DELAY_CAP as u128 {
        DELAY_CAP
    } else {
        wide as u64
    }
}

/// The policy's one transition: from the current state and an incoming
/// notification to the next state and the action the loop must take.
pub open spec fn spec_monitor_step(cfg: MonitorConfig, s: MonitorState, e: MonitorEvent) -> (
    MonitorState,
    MonitorAction,
) {
    match e {
        MonitorEvent::Swap(ev) => (
            MonitorState {
                last_confirmed_block: if ev.block_number > s.last_confirmed_block {
                    ev.block_number
                } else {
                    s.last_confirmed_block
                },
                retries_used: 0,
            },
            MonitorAction::Emit(spec_normalize(ev)),
        ),
        MonitorEvent::Disconnected => {
            if s.retries_used < cfg.max_retries {
                (
                    MonitorState { retries_used: (s.retries_used + 1) as u64, ..s },
                    MonitorAction::Reconnect {
                        from_block: s.last_confirmed_block,
                        delay_ms: spec_backoff_delay(cfg, s.retries_used),
                    },
                )
            } else {
                (s, MonitorAction::Fail)
            }
        },
        MonitorEvent::Cancelled => (s, MonitorAction::Stop),
    }
}

/// Decides the monitor's next move. An arriving event is normalized, emitted
/// in receipt order, and resets the retry budget; a disconnect reconnects
/// from the last confirmed block with exponential backoff until the budget
/// is exhausted, then surfaces the failure; cancellation stops cleanly.
pub fn monitor_step(cfg: &MonitorConfig, s: &MonitorState, e: &MonitorEvent) -> (r: (
    MonitorState,
    MonitorAction,
))
    requires
        s.retries_used <= cfg.max_retries,
    ensures
        r == spec_monitor_step(*cfg, *s, *e),
        r.0.retries_used <= cfg.max_retries,
{
    match e {
        MonitorEvent::Swap(ev) => {
            let next = MonitorState {
                last_confirmed_block: if ev.block_number > s.last_confirmed_block {
                    ev.block_number
                } else {
                    s.last_confirmed_block
                },
                retries_used: 0,
            };
            (next, MonitorAction::Emit(normalize_event(ev)))
        },
        MonitorEvent::Disconnected => {
            if s.retries_used < cfg.max_retries {
                let delay = backoff_delay(cfg, s.retries_used);
                (
                    MonitorState {
                        last_confirmed_block: s.last_confirmed_block,
                        retries_used: s.retries_used + 1,
                    },
                    MonitorAction::Reconnect { from_block: s.last_confirmed_block, delay_ms: delay },
                )
            } else {
                (*s, MonitorAction::Fail)
            }
        },
        MonitorEvent::Cancelled => (*s, MonitorAction::Stop),
    }
}

} // verus!
