use arbiter::amm::{AmmModel, PortfolioAmm, UniswapV3Amm, ASSET_BASE, ASSET_QUOTE};
use arbiter::config::{AmmVariant, ProcessKind, SimulationConfig};
use arbiter::engine::{run_simulation, RunStatus};
use arbiter::errors::SimError;
use arbiter::fixed::ONE;
use arbiter::process::generate_path;

fn gbm_config(seed: u64) -> SimulationConfig {
    SimulationConfig {
        process: ProcessKind::Gbm,
        drift: 50_000,            // 0.05
        volatility: 200_000,      // 0.2
        mean_reversion: 0,
        long_run_mean: 100 * ONE,
        initial_price: 100 * ONE, // 100
        time_step: 1,
        horizon: 10,
        seed,
        variant: AmmVariant::Portfolio,
    }
}

#[test]
fn test_sim_portfolio() {
    let config = gbm_config(42);
    let run = run_simulation(&config).expect("valid config must simulate");
    assert!(run.status == RunStatus::Completed);
    assert_eq!(run.records.len(), 10);
}

#[test]
fn test_sim_uniswapv3() {
    let mut config = gbm_config(42);
    config.variant = AmmVariant::UniswapV3;
    let run = run_simulation(&config).expect("valid config must simulate");
    assert!(run.status == RunStatus::Completed);
    assert_eq!(run.records.len(), 10);
}

#[test]
fn gbm_scenario_seeded_path() {
    // GBM with drift 0.05, volatility 0.2, initial price 100, unit step,
    // horizon 10, seed 42: ten points, reproducible; seed 43 differs.
    let config = gbm_config(42);
    let first = generate_path(&config).unwrap();
    assert_eq!(first.len(), 10);
    let again = generate_path(&config).unwrap();
    assert_eq!(first, again);
    let other = generate_path(&gbm_config(43)).unwrap();
    assert_eq!(other.len(), 10);
    assert_ne!(first, other);
}

#[test]
fn path_count_and_strict_order() {
    let mut config = gbm_config(7);
    config.time_step = 3;
    config.horizon = 11;
    let path = generate_path(&config).unwrap();
    assert_eq!(path.len(), 3); // floor(11 / 3)
    for w in path.windows(2) {
        assert!(w[0].step < w[1].step);
    }
}

#[test]
fn ou_path_reverts_toward_mean() {
    let config = SimulationConfig {
        process: ProcessKind::Ou,
        drift: 0,
        volatility: 0, // deterministic reversion only
        mean_reversion: 500_000, // 0.5 of the gap per unit time
        long_run_mean: 200 * ONE,
        initial_price: 100 * ONE,
        time_step: 1,
        horizon: 3,
        seed: 1,
        variant: AmmVariant::Portfolio,
    };
    let path = generate_path(&config).unwrap();
    assert_eq!(path.len(), 3);
    // 100 -> 150 -> 175: half the remaining gap per step.
    assert_eq!(path[0].price, 100 * ONE);
    assert_eq!(path[1].price, 150 * ONE);
    assert_eq!(path[2].price, 175 * ONE);
}

#[test]
fn gbm_drift_only_grows_multiplicatively() {
    // With zero volatility the GBM step is purely multiplicative:
    // each step scales the price by 1 + drift * dt.
    let mut config = gbm_config(9);
    config.drift = 100_000; // 0.1 per time unit
    config.volatility = 0;
    config.horizon = 3;
    let path = generate_path(&config).unwrap();
    assert_eq!(path[0].price, 100_000_000); // 100
    assert_eq!(path[1].price, 110_000_000); // 110
    assert_eq!(path[2].price, 121_000_000); // 121
}

#[test]
fn invalid_configs_are_rejected_before_any_step() {
    let mut config = gbm_config(1);
    config.volatility = -1;
    assert_eq!(generate_path(&config).unwrap_err(), SimError::InvalidConfig);
    assert_eq!(run_simulation(&config).unwrap_err(), SimError::InvalidConfig);

    let mut config = gbm_config(1);
    config.time_step = 0;
    assert_eq!(generate_path(&config).unwrap_err(), SimError::InvalidConfig);

    let mut config = gbm_config(1);
    config.horizon = 0;
    assert_eq!(generate_path(&config).unwrap_err(), SimError::InvalidConfig);
}

#[test]
fn simulation_runs_are_deterministic() {
    let config = gbm_config(42);
    let a = run_simulation(&config).unwrap();
    let b = run_simulation(&config).unwrap();
    assert_eq!(a.records, b.records);
    assert!(a.status == b.status);
}

#[test]
fn portfolio_apply_preserves_product() {
    let mut amm = AmmModel::Portfolio(PortfolioAmm { reserve_base: 1_000_000, reserve_quote: 2_000_000 });
    let trade = amm.quote(4 * ONE); // price above 2.0: quote flows in
    let before: u128 = 1_000_000u128 * 2_000_000u128;
    amm.apply(&trade, 0).expect("quoted trade must apply");
    match amm {
        AmmModel::Portfolio(s) => {
            let after = s.reserve_base as u128 * s.reserve_quote as u128;
            assert!(after >= before);
            assert!(s.reserve_base >= 1 && s.reserve_quote >= 1);
        }
        _ => panic!("variant must not change"),
    }
}

#[test]
fn portfolio_apply_rejects_draining_trade() {
    // A trade that would drive the base reserve negative fails with
    // InsufficientLiquidity carrying the step index, and leaves the state.
    let mut amm = AmmModel::Portfolio(PortfolioAmm { reserve_base: 1_000, reserve_quote: 1_000 });
    let bad = arbiter::amm::ImpliedTrade {
        amount_in: 10,
        amount_out: 5_000, // more than the base reserve holds
        asset_in: ASSET_QUOTE,
        asset_out: ASSET_BASE,
        target_price: ONE,
        target_sqrt: ONE,
    };
    let err = amm.apply(&bad, 7).unwrap_err();
    assert_eq!(err, SimError::InsufficientLiquidity { step: 7 });
    assert!(amm == AmmModel::Portfolio(PortfolioAmm { reserve_base: 1_000, reserve_quote: 1_000 }));
}

#[test]
fn v3_apply_rejects_tick_breach_and_keeps_liquidity() {
    let mut amm = AmmModel::UniswapV3(UniswapV3Amm {
        liquidity: 1_000_000,
        sqrt_price: 10 * ONE,
        sqrt_lower: 5 * ONE,
        sqrt_upper: 20 * ONE,
    });
    // Quote far above the upper tick boundary: (25 ONE)^2 / ONE > upper^2.
    let breach = amm.quote(1_000 * ONE);
    let err = amm.apply(&breach, 3).unwrap_err();
    assert_eq!(err, SimError::InsufficientLiquidity { step: 3 });

    let fine = amm.quote(150 * ONE);
    amm.apply(&fine, 4).expect("in-range trade must apply");
    match amm {
        AmmModel::UniswapV3(s) => {
            assert_eq!(s.liquidity, 1_000_000);
            assert!(s.sqrt_lower <= s.sqrt_price && s.sqrt_price <= s.sqrt_upper);
        }
        _ => panic!("variant must not change"),
    }
}

#[test]
fn failed_step_keeps_earlier_records() {
    // Drive the engine by hand as it drives the AMM, and fail at step 2:
    // the records of steps 0 and 1 stay available.
    let mut amm = AmmModel::Portfolio(PortfolioAmm { reserve_base: 1_000_000, reserve_quote: 1_000_000 });
    let mut records = Vec::new();
    for step in 0..2u64 {
        let t = amm.quote((step + 2) * ONE);
        amm.apply(&t, step).unwrap();
        records.push((step, t.amount_in, t.amount_out));
    }
    let bad = arbiter::amm::ImpliedTrade {
        amount_in: 0,
        amount_out: u64::MAX,
        asset_in: ASSET_BASE,
        asset_out: ASSET_QUOTE,
        target_price: ONE,
        target_sqrt: ONE,
    };
    let err = amm.apply(&bad, 2).unwrap_err();
    assert_eq!(err, SimError::InsufficientLiquidity { step: 2 });
    assert_eq!(records.len(), 2);
}

#[test]
fn run_fails_at_exact_step_and_keeps_prefix() {
    // A pool whose quote reserve saturates cannot follow the path: the run
    // fails with InsufficientLiquidity at the exact failing step index, and
    // exactly the records of the earlier steps are returned.
    let mut config = gbm_config(1);
    config.drift = 0;
    config.volatility = 0;
    config.initial_price = 1_000_000_000_000_000_000; // the price ceiling
    config.horizon = 3;
    let run = run_simulation(&config).unwrap();
    match run.status {
        RunStatus::Failed { step, error } => {
            assert_eq!(step, 0);
            assert_eq!(error, SimError::InsufficientLiquidity { step: 0 });
        }
        RunStatus::Completed => panic!("a saturated pool cannot complete"),
    }
    assert_eq!(run.records.len(), 0);
}

#[test]
fn quote_directions_match_price_move() {
    let amm = AmmModel::Portfolio(PortfolioAmm { reserve_base: 1_000_000, reserve_quote: 1_000_000 });
    let up = amm.quote(4 * ONE);
    assert_eq!(up.asset_in, ASSET_QUOTE);
    assert_eq!(up.asset_out, ASSET_BASE);
    let down = amm.quote(ONE / 4);
    assert_eq!(down.asset_in, ASSET_BASE);
    assert_eq!(down.asset_out, ASSET_QUOTE);
}
