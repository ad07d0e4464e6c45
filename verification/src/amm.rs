//! AMM model adapters: a constant-product portfolio pool and a
//! concentrated-liquidity (UniswapV3-style) pool.
//!
//! Both variants expose the same capability set: `quote` computes, without
//! mutating anything, the trade that moves the pool toward a candidate
//! external price; `apply` mutates the reserves by a trade and fails with
//! `InsufficientLiquidity` when the trade would drive a reserve out of bounds
//! or breach the variant's curve invariant. Trades are fee-free; integer
//! rounding always favors the pool, so the constant-product invariant never
//! decreases under an accepted trade.

use vstd::prelude::*;
use crate::errors::SimError;
use crate::fixed::clamp_u128;
use crate::fixed::isqrt_u128;
use crate::fixed::spec_clamp;
use crate::fixed::spec_isqrt;
use crate::fixed::MAX_PRICE;
use crate::fixed::ONE;
use crate::fixed::PRICE_FLOOR;

verus! {

/// Asset tag of the base (reserve) token.
pub const ASSET_BASE: u64 = 0;

/// Asset tag of the quote token.
pub const ASSET_QUOTE: u64 = 1;

/// Largest reserve or liquidity a pool may hold (one billion, fixed-point).
pub const MAX_RESERVE: u64 = 1_000_000_000_000_000;

/// Largest square-root price: the square root of [`MAX_PRICE`] in fixed point.
pub const MAX_SQRT: u64 = 1_000_000_000_000;

/// One normalized trade: produced by an AMM quote or observed on chain.
#[derive(Clone, Copy, Debug, PartialEq, Eq, Structural)]
pub struct TradeRecord {
    /// Block number (historical data) or path step (synthetic runs).
    pub block_or_step: u64,
    /// Amount of `asset_in` paid into the pool.
    pub amount_in: u64,
    /// Amount of `asset_out` paid out of the pool.
    pub amount_out: u64,
    /// Asset tag of the token paid in.
    pub asset_in: u64,
    /// Asset tag of the token paid out.
    pub asset_out: u64,
    /// Fixed-point pool price after the trade.
    pub resulting_price: u64,
}

/// The trade a quote implies: amounts, direction, and the post-trade
/// square-root price used by the concentrated-liquidity variant.
#[derive(Clone, Copy, Debug, PartialEq, Eq, Structural)]
pub struct ImpliedTrade {
    /// Amount of `asset_in` the trader pays into the pool.
    pub amount_in: u64,
    /// Amount of `asset_out` the pool pays out.
    pub amount_out: u64,
    /// Asset tag of the token paid in.
    pub asset_in: u64,
    /// Asset tag of the token paid out.
    pub asset_out: u64,
    /// The candidate external price the trade steers toward (fixed-point).
    pub target_price: u64,
    /// Fixed-point square root of the target price.
    pub target_sqrt: u64,
}

/// A constant-product pool: two reserves whose product may never decrease.
#[derive(Clone, Copy, Debug, PartialEq, Eq, Structural)]
pub struct PortfolioAmm {
    /// Base-token reserve.
    pub reserve_base: u64,
    /// Quote-token reserve.
    pub reserve_quote: u64,
}

/// A concentrated-liquidity pool: fixed liquidity between two square-root
/// price bounds (the tick range).
#[derive(Clone, Copy, Debug, PartialEq, Eq, Structural)]
pub struct UniswapV3Amm {
    /// In-range liquidity; constant under every accepted trade.
    pub liquidity: u64,
    /// Current fixed-point square-root price.
    pub sqrt_price: u64,
    /// Lower tick boundary as a square-root price.
    pub sqrt_lower: u64,
    /// Upper tick boundary as a square-root price.
    pub sqrt_upper: u64,
}

impl PortfolioAmm {
    /// Curve invariant: both reserves strictly positive and bounded.
    pub open spec fn wf(self) -> bool {
        &&& 1 <= self.reserve_base <= MAX_RESERVE
        &&& 1 <= self.reserve_quote <= MAX_RESERVE
    }

    /// The constant-function product of the reserves.
    pub open spec fn spec_product(self) -> int {
        self.reserve_base * self.reserve_quote
    }

    /// The pool price: quote reserve over base reserve, fixed-point, clamped
    /// into the representable price range.
    pub open spec fn spec_price(self) -> u64
        recommends
            self.reserve_base >= 1,
    {
        spec_clamp(
            self.reserve_quote * ONE / (self.reserve_base as int),
            PRICE_FLOOR as int,
            MAX_PRICE as int,
        ) as u64
    }
}

/// The trade that moves a constant-product pool toward `target`: the new
/// base reserve is `sqrt(k) * ONE / sqrt(target * ONE)`, the square root of
/// `k / target` in fixed point; the new quote reserve rounds `k / new_base`
/// up so the product never decreases.
#[verifier::opaque]
pub open spec fn spec_portfolio_quote(s: PortfolioAmm, target: u64) -> ImpliedTrade {
    let k = s.reserve_base * s.reserve_quote;
    let sk = spec_isqrt(k);
    let sp = spec_isqrt(target * ONE);
    let nb = spec_clamp(sk * ONE / sp, 1, MAX_RESERVE as int);
    let nq = spec_clamp((k + nb - 1) / nb, 1, MAX_RESERVE as int);
    let ts = spec_clamp(sp, 1, MAX_SQRT as int) as u64;
    if nb <= s.reserve_base {
        // Price rises: the pool gives up base and takes in quote.
        ImpliedTrade {
            amount_in: spec_clamp(nq - s.reserve_quote, 0, MAX_RESERVE as int) as u64,
            amount_out: (s.reserve_base - nb) as u64,
            asset_in: ASSET_QUOTE,
            asset_out: ASSET_BASE,
            target_price: target,
            target_sqrt: ts,
        }
    } else {
        ImpliedTrade {
            amount_in: (nb - s.reserve_base) as u64,
            amount_out: spec_clamp(s.reserve_quote - nq, 0, MAX_RESERVE as int) as u64,
            asset_in: ASSET_BASE,
            asset_out: ASSET_QUOTE,
            target_price: target,
            target_sqrt: ts,
        }
    }
}

/// The reserve state after applying `t` to a constant-product pool, or `None`
/// when the trade drives a reserve out of `[1, MAX_RESERVE]`, decreases the
/// product, or names no valid asset pair.
#[verifier::opaque]
pub open spec fn spec_portfolio_apply(s: PortfolioAmm, t: ImpliedTrade) -> Option<PortfolioAmm> {
    if t.asset_in == ASSET_QUOTE && t.asset_out == ASSET_BASE {
        if t.amount_out < s.reserve_base && s.reserve_quote + t.amount_in <= MAX_RESERVE {
            let n = PortfolioAmm {
                reserve_base: (s.reserve_base - t.amount_out) as u64,
                reserve_quote: (s.reserve_quote + t.amount_in) as u64,
            };
            if n.spec_product() >= s.spec_product() {
                Some(n)
            } else {
                None
            }
        } else {
            None
        }
    } else if t.asset_in == ASSET_BASE && t.asset_out == ASSET_QUOTE {
        if t.amount_out < s.reserve_quote && s.reserve_base + t.amount_in <= MAX_RESERVE {
            let n = PortfolioAmm {
                reserve_base: (s.reserve_base + t.amount_in) as u64,
                reserve_quote: (s.reserve_quote - t.amount_out) as u64,
            };
            if n.spec_product() >= s.spec_product() {
                Some(n)
            } else {
                None
            }
        } else {
            None
        }
    } else {
        None
    }
}

impl UniswapV3Amm {
    /// Curve invariant: positive bounded liquidity, and a square-root price
    /// inside the tick range.
    pub open spec fn wf(self) -> bool {
        &&& 1 <= self.liquidity <= MAX_RESERVE
        &&& 1 <= self.sqrt_lower <= self.sqrt_price <= self.sqrt_upper <= MAX_SQRT
    }

    /// The pool price: the square of the square-root price, fixed-point,
    /// clamped into the representable price range.
    pub open spec fn spec_price(self) -> u64 {
        spec_clamp(
            self.sqrt_price * self.sqrt_price / (ONE as int),
            PRICE_FLOOR as int,
            MAX_PRICE as int,
        ) as u64
    }
}

/// The trade that moves a concentrated-liquidity pool toward `target`:
/// the quote amount is `L * |sqrt' - sqrt|` and the base amount is
/// `L * |sqrt' - sqrt| / (sqrt * sqrt')`, both in fixed point.
#[verifier::opaque]
pub open spec fn spec_v3_quote(s: UniswapV3Amm, target: u64) -> ImpliedTrade {
    let sp = spec_isqrt(target * ONE);
    let ts = spec_clamp(sp, 1, MAX_SQRT as int) as u64;
    let diff = if ts >= s.sqrt_price {
        ts - s.sqrt_price
    } else {
        s.sqrt_price - ts
    };
    let dquote = spec_clamp(s.liquidity * diff / (ONE as int), 0, MAX_RESERVE as int) as u64;
    let dbase = spec_clamp(
        s.liquidity * diff * ONE / (s.sqrt_price * (ts as int)),
        0,
        MAX_RESERVE as int,
    ) as u64;
    if ts >= s.sqrt_price {
        // Price rises: the pool takes in quote and gives up base.
        ImpliedTrade {
            amount_in: dquote,
            amount_out: dbase,
            asset_in: ASSET_QUOTE,
            asset_out: ASSET_BASE,
            target_price: target,
            target_sqrt: ts,
        }
    } else {
        ImpliedTrade {
            amount_in: dbase,
            amount_out: dquote,
            asset_in: ASSET_BASE,
            asset_out: ASSET_QUOTE,
            target_price: target,
            target_sqrt: ts,
        }
    }
}

/// The state after applying `t` to a concentrated-liquidity pool, or `None`
/// when the post-trade square-root price breaches the tick range. Liquidity
/// never changes.
#[verifier::opaque]
pub open spec fn spec_v3_apply(s: UniswapV3Amm, t: ImpliedTrade) -> Option<UniswapV3Amm> {
    if s.sqrt_lower <= t.target_sqrt && t.target_sqrt <= s.sqrt_upper {
        Some(UniswapV3Amm { sqrt_price: t.target_sqrt, ..s })
    } else {
        None
    }
}

/// The polymorphic AMM adapter: one tagged variant per model, both exposing
/// `quote` and `apply`.
#[derive(Clone, Copy, Debug, PartialEq, Eq, Structural)]
pub enum AmmModel {
    /// A constant-product portfolio pool.
    Portfolio(PortfolioAmm),
    /// A concentrated-liquidity pool.
    UniswapV3(UniswapV3Amm),
}

/// The state after applying `t` to either variant.
pub open spec fn spec_amm_apply(s: AmmModel, t: ImpliedTrade) -> Option<AmmModel> {
    match s {
        AmmModel::Portfolio(p) => match spec_portfolio_apply(p, t) {
            Some(n) => Some(AmmModel::Portfolio(n)),
            None => None,
        },
        AmmModel::UniswapV3(v) => match spec_v3_apply(v, t) {
            Some(n) => Some(AmmModel::UniswapV3(n)),
            None => None,
        },
    }
}

/// The quote of either variant.
pub open spec fn spec_amm_quote(s: AmmModel, target: u64) -> ImpliedTrade {
    match s {
        AmmModel::Portfolio(p) => spec_portfolio_quote(p, target),
        AmmModel::UniswapV3(v) => spec_v3_quote(v, target),
    }
}

impl AmmModel {
    /// The variant's curve invariant.
    pub open spec fn wf(self) -> bool {
        match self {
            AmmModel::Portfolio(p) => p.wf(),
            AmmModel::UniswapV3(v) => v.wf(),
        }
    }

    /// The variant's current fixed-point price.
    pub open spec fn spec_price(self) -> u64 {
        match self {
            AmmModel::Portfolio(p) => p.spec_price(),
            AmmModel::UniswapV3(v) => v.spec_price(),
        }
    }

    /// Reads the current pool price.
    pub fn price(&self) -> (p: u64)
        requires
            self.wf(),
        ensures
            p == self.spec_price(),
    {
        match self {
            AmmModel::Portfolio(s) => {
                let raw: u128 = (s.reserve_quote as u128) * (ONE as u128)
                    / (s.reserve_base as u128);
                clamp_u128(raw, PRICE_FLOOR, MAX_PRICE)
            },
            AmmModel::UniswapV3(s) => {
                proof {
                    assert((s.sqrt_price as u128) * (s.sqrt_price as u128)
                        <= 1_000_000_000_000_000_000_000_000u128) by (nonlinear_arith)
                        requires
                            s.sqrt_price as u128 <= 1_000_000_000_000u128,
                    ;
                }
                let raw: u128 = (s.sqrt_price as u128) * (s.sqrt_price as u128) / (ONE as u128);
                clamp_u128(raw, PRICE_FLOOR, MAX_PRICE)
            },
        }
    }

    /// Computes, without mutating the pool, the trade that moves it toward
    /// the candidate external price.
    #[verifier::rlimit(50)]
    pub fn quote(&self, target: u64) -> (t: ImpliedTrade)
        requires
            self.wf(),
            PRICE_FLOOR <= target <= MAX_PRICE,
        ensures
            t == spec_amm_quote(*self, target),
    {
        match self {
            AmmModel::Portfolio(s) => {
                proof {
                    reveal(spec_portfolio_quote);
                    assert((s.reserve_base as u128) * (s.reserve_quote as u128)
                        <= 1_000_000_000_000_000_000_000_000_000_000u128) by (nonlinear_arith)
                        requires
                            s.reserve_base as u128 <= 1_000_000_000_000_000u128,
                            s.reserve_quote as u128 <= 1_000_000_000_000_000u128,
                    ;
                }
                let k: u128 = (s.reserve_base as u128) * (s.reserve_quote as u128);
                let sk: u128 = isqrt_u128(k);
                let sp: u128 = isqrt_u128((target as u128) * (ONE as u128));
                proof {
                    assert(sk <= 1_000_000_000_000_000u128) by (nonlinear_arith)
                        requires
                            sk * sk <= 1_000_000_000_000_000_000_000_000_000_000u128,
                    ;
                    assert(sp >= 1) by (nonlinear_arith)
                        requires
                            (target as u128) * (ONE as u128) < (sp + 1) * (sp + 1),
                            (target as u128) * (ONE as u128) >= 1_000_000u128,
                    ;
                }
                let nb: u64 = clamp_u128(sk * (ONE as u128) / sp, 1, MAX_RESERVE);
                let nq: u64 = clamp_u128((k + (nb as u128) - 1) / (nb as u128), 1, MAX_RESERVE);
                let ts: u64 = clamp_u128(sp, 1, MAX_SQRT);
                if nb <= s.reserve_base {
                    ImpliedTrade {
                        amount_in: if nq >= s.reserve_quote {
                            nq - s.reserve_quote
                        } else {
                            0
                        },
                        amount_out: s.reserve_base - nb,
                        asset_in: ASSET_QUOTE,
                        asset_out: ASSET_BASE,
                        target_price: target,
                        target_sqrt: ts,
                    }
                } else {
                    ImpliedTrade {
                        amount_in: nb - s.reserve_base,
                        amount_out: if s.reserve_quote >= nq {
                            s.reserve_quote - nq
                        } else {
                            0
                        },
                        asset_in: ASSET_BASE,
                        asset_out: ASSET_QUOTE,
                        target_price: target,
                        target_sqrt: ts,
                    }
                }
            },
            AmmModel::UniswapV3(s) => {
                proof {
                    reveal(spec_v3_quote);
                    assert((target as u128) * (ONE as u128)
                        <= 1_000_000_000_000_000_000_000_000u128) by (nonlinear_arith)
                        requires
                            target as u128 <= 1_000_000_000_000_000_000u128,
                    ;
                }
                let sp: u128 = isqrt_u128((target as u128) * (ONE as u128));
                let ts: u64 = clamp_u128(sp, 1, MAX_SQRT);
                let diff: u64 = if ts >= s.sqrt_price {
                    ts - s.sqrt_price
                } else {
                    s.sqrt_price - ts
                };
                proof {
                    assert((s.liquidity as u128) * (diff as u128)
                        <= 1_000_000_000_000_000_000_000_000_000u128) by (nonlinear_arith)
                        requires
                            s.liquidity as u128 <= 1_000_000_000_000_000u128,
                            diff as u128 <= 1_000_000_000_000u128,
                    ;
                }
                let scaled: u128 = (s.liquidity as u128) * (diff as u128);
                let dquote: u64 = clamp_u128(scaled / (ONE as u128), 0, MAX_RESERVE);
                proof {
                    assert(scaled * (ONE as u128)
                        <= 1_000_000_000_000_000_000_000_000_000_000_000u128) by (nonlinear_arith)
                        requires
                            scaled <= 1_000_000_000_000_000_000_000_000_000u128,
                    ;
                    assert(1 <= (s.sqrt_price as u128) * (ts as u128)
                        <= 1_000_000_000_000_000_000_000_000u128) by (nonlinear_arith)
                        requires
                            1 <= s.sqrt_price as u128 <= 1_000_000_000_000u128,
                            1 <= ts as u128 <= 1_000_000_000_000u128,
                    ;
                }
                let dbase: u64 = clamp_u128(
                    scaled * (ONE as u128) / ((s.sqrt_price as u128) * (ts as u128)),
                    0,
                    MAX_RESERVE,
                );
                if ts >= s.sqrt_price {
                    ImpliedTrade {
                        amount_in: dquote,
                        amount_out: dbase,
                        asset_in: ASSET_QUOTE,
                        asset_out: ASSET_BASE,
                        target_price: target,
                        target_sqrt: ts,
                    }
                } else {
                    ImpliedTrade {
                        amount_in: dbase,
                        amount_out: dquote,
                        asset_in: ASSET_BASE,
                        asset_out: ASSET_QUOTE,
                        target_price: target,
                        target_sqrt: ts,
                    }
                }
            },
        }
    }

    /// Applies a trade to the pool. On success the new state satisfies the
    /// variant's curve invariant; on failure the state is unchanged and the
    /// error carries the failing step index.
    pub fn apply(&mut self, t: &ImpliedTrade, step: u64) -> (r: Result<(), SimError>)
        requires
            old(self).wf(),
        ensures
            r is Ok <==> spec_amm_apply(*old(self), *t) is Some,
            r is Ok ==> Some(*final(self)) == spec_amm_apply(*old(self), *t) && final(self).wf(),
            r is Err ==> *final(self) == *old(self) && r->Err_0 == (SimError::InsufficientLiquidity {
                step,
            }),
    {
        let cur = *self;
        match cur {
            AmmModel::Portfolio(s) => {
                proof {
                    reveal(spec_portfolio_apply);
                }
                if t.asset_in == ASSET_QUOTE && t.asset_out == ASSET_BASE {
                    if t.amount_out < s.reserve_base && t.amount_in <= MAX_RESERVE
                        - s.reserve_quote {
                        let nb: u64 = s.reserve_base - t.amount_out;
                        let nq: u64 = s.reserve_quote + t.amount_in;
                        proof {
                            assert((nb as u128) * (nq as u128)
                                <= 1_000_000_000_000_000_000_000_000_000_000u128
                                && (s.reserve_base as u128) * (s.reserve_quote as u128)
                                <= 1_000_000_000_000_000_000_000_000_000_000u128)
                                by (nonlinear_arith)
                                requires
                                    nb as u128 <= 1_000_000_000_000_000u128,
                                    nq as u128 <= 1_000_000_000_000_000u128,
                                    s.reserve_base as u128 <= 1_000_000_000_000_000u128,
                                    s.reserve_quote as u128 <= 1_000_000_000_000_000u128,
                            ;
                        }
                        if (nb as u128) * (nq as u128) >= (s.reserve_base as u128) * (
                        s.reserve_quote as u128) {
                            *self = AmmModel::Portfolio(
                                PortfolioAmm { reserve_base: nb, reserve_quote: nq },
                            );
                            Ok(())
                        } else {
                            Err(SimError::InsufficientLiquidity { step })
                        }
                    } else {
                        Err(SimError::InsufficientLiquidity { step })
                    }
                } else if t.asset_in == ASSET_BASE && t.asset_out == ASSET_QUOTE {
                    if t.amount_out < s.reserve_quote && t.amount_in <= MAX_RESERVE
                        - s.reserve_base {
                        let nb: u64 = s.reserve_base + t.amount_in;
                        let nq: u64 = s.reserve_quote - t.amount_out;
                        proof {
                            assert((nb as u128) * (nq as u128)
                                <= 1_000_000_000_000_000_000_000_000_000_000u128
                                && (s.reserve_base as u128) * (s.reserve_quote as u128)
                                <= 1_000_000_000_000_000_000_000_000_000_000u128)
                                by (nonlinear_arith)
                                requires
                                    nb as u128 <= 1_000_000_000_000_000u128,
                                    nq as u128 <= 1_000_000_000_000_000u128,
                                    s.reserve_base as u128 <= 1_000_000_000_000_000u128,
                                    s.reserve_quote as u128 <= 1_000_000_000_000_000u128,
                            ;
                        }
                        if (nb as u128) * (nq as u128) >= (s.reserve_base as u128) * (
                        s.reserve_quote as u128) {
                            *self = AmmModel::Portfolio(
                                PortfolioAmm { reserve_base: nb, reserve_quote: nq },
                            );
                            Ok(())
                        } else {
                            Err(SimError::InsufficientLiquidity { step })
                        }
                    } else {
                        Err(SimError::InsufficientLiquidity { step })
                    }
                } else {
                    Err(SimError::InsufficientLiquidity { step })
                }
            },
            AmmModel::UniswapV3(s) => {
                proof {
                    reveal(spec_v3_apply);
                }
                if s.sqrt_lower <= t.target_sqrt && t.target_sqrt <= s.sqrt_upper {
                    *self = AmmModel::UniswapV3(UniswapV3Amm { sqrt_price: t.target_sqrt, ..s });
                    Ok(())
                } else {
                    Err(SimError::InsufficientLiquidity { step })
                }
            },
        }
    }
}

/// Law: applying any trade to a well-formed constant-product pool either
/// fails or yields a well-formed pool whose reserve product has not
/// decreased.
pub proof fn lemma_portfolio_apply_preserves(s: PortfolioAmm, t: ImpliedTrade)
    requires
        s.wf(),
        spec_portfolio_apply(s, t) is Some,
    ensures
        spec_portfolio_apply(s, t)->Some_0.wf(),
        spec_portfolio_apply(s, t)->Some_0.spec_product() >= s.spec_product(),
{
    reveal(spec_portfolio_apply);
}

/// Law: applying any trade to a well-formed concentrated-liquidity pool
/// either fails or keeps the liquidity constant and the square-root price
/// inside the tick range.
pub proof fn lemma_v3_apply_preserves(s: UniswapV3Amm, t: ImpliedTrade)
    requires
        s.wf(),
        spec_v3_apply(s, t) is Some,
    ensures
        spec_v3_apply(s, t)->Some_0.wf(),
        spec_v3_apply(s, t)->Some_0.liquidity == s.liquidity,
{
    reveal(spec_v3_apply);
}

/// The pool state after a sequence of trades, each applied only if accepted;
/// a rejected trade leaves the state unchanged.
pub open spec fn spec_amm_after(s: AmmModel, ts: Seq<ImpliedTrade>) -> AmmModel
    decreases ts.len(),
{
    if ts.len() == 0 {
        s
    } else {
        let prev = spec_amm_after(s, ts.drop_last());
        match spec_amm_apply(prev, ts.last()) {
            Some(n) => n,
            None => prev,
        }
    }
}

/// Law: over every sequence of trades, `apply` never leaves a well-formed
/// pool in a state that violates its curve invariant, and a constant-product
/// pool's reserve product never decreases.
pub proof fn lemma_amm_invariant_preserved(s: AmmModel, ts: Seq<ImpliedTrade>)
    requires
        s.wf(),
    ensures
        spec_amm_after(s, ts).wf(),
        s is Portfolio ==> spec_amm_after(s, ts) is Portfolio && spec_amm_after(
            s,
            ts,
        )->Portfolio_0.spec_product() >= s->Portfolio_0.spec_product(),
        s is UniswapV3 ==> spec_amm_after(s, ts) is UniswapV3 && spec_amm_after(
            s,
            ts,
        )->UniswapV3_0.liquidity == s->UniswapV3_0.liquidity,
    decreases ts.len(),
{
    if ts.len() == 0 {
    } else {
        lemma_amm_invariant_preserved(s, ts.drop_last());
        let prev = spec_amm_after(s, ts.drop_last());
        match prev {
            AmmModel::Portfolio(p) => {
                if spec_portfolio_apply(p, ts.last()) is Some {
                    lemma_portfolio_apply_preserves(p, ts.last());
                }
            },
            AmmModel::UniswapV3(v) => {
                if spec_v3_apply(v, ts.last()) is Some {
                    lemma_v3_apply_preserves(v, ts.last());
                }
            },
        }
    }
}

} // verus!
