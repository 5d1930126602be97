//! Quotes and the matches they give.
use percolator_match::passive_lp_matcher::{
    compute_quote, PassiveLpState, PassiveMatcherConfig, PassiveOracleBpsMatcher, Reason,
};

fn default_cfg() -> PassiveMatcherConfig {
    PassiveMatcherConfig::default()
}

fn default_lp() -> PassiveLpState {
    PassiveLpState::default()
}

#[test]
fn test_quote_math_basic() {
    let cfg = default_cfg();
    let quote = compute_quote(&cfg, 100_000).unwrap();
    assert_eq!(quote.bid, 99_500);
    assert_eq!(quote.ask, 100_500);
}

#[test]
fn test_ask_rounds_up() {
    let cfg = default_cfg();
    let quote = compute_quote(&cfg, 100_001).unwrap();
    assert_eq!(quote.ask, 100_502);
}

#[test]
fn test_bid_rounds_down() {
    let cfg = default_cfg();
    let quote = compute_quote(&cfg, 100_001).unwrap();
    assert_eq!(quote.bid, 99_500);
}

#[test]
fn test_oracle_zero_returns_none() {
    let cfg = default_cfg();
    assert!(compute_quote(&cfg, 0).is_none());
}

#[test]
fn test_buy_with_limit_too_low_fails() {
    let cfg = default_cfg();
    let mut lp = default_lp();
    let matcher = PassiveOracleBpsMatcher;

    let result = matcher.execute_match(&cfg, &mut lp, 100_000, 10, Some(100_400));
    assert_eq!(result.reason, Reason::TakerLimitTooTight);
    assert_eq!(result.execution.size, 0);
}

#[test]
fn test_sell_with_limit_too_high_fails() {
    let cfg = default_cfg();
    let mut lp = default_lp();
    let matcher = PassiveOracleBpsMatcher;

    let result = matcher.execute_match(&cfg, &mut lp, 100_000, -10, Some(99_600));
    assert_eq!(result.reason, Reason::TakerLimitTooTight);
    assert_eq!(result.execution.size, 0);
}

#[test]
fn test_inventory_limit_buy() {
    let cfg = PassiveMatcherConfig {
        max_abs_inventory: 10,
        ..default_cfg()
    };
    let mut lp = PassiveLpState {
        inventory_base: -10,
    };
    let matcher = PassiveOracleBpsMatcher;

    let result = matcher.execute_match(&cfg, &mut lp, 100_000, 1, None);
    assert_eq!(result.reason, Reason::LpInventoryLimit);
    assert_eq!(lp.inventory_base, -10);
}

#[test]
fn test_inventory_limit_sell() {
    let cfg = PassiveMatcherConfig {
        max_abs_inventory: 10,
        ..default_cfg()
    };
    let mut lp = PassiveLpState { inventory_base: 10 };
    let matcher = PassiveOracleBpsMatcher;

    let result = matcher.execute_match(&cfg, &mut lp, 100_000, -1, None);
    assert_eq!(result.reason, Reason::LpInventoryLimit);
    assert_eq!(lp.inventory_base, 10);
}

#[test]
fn test_buy_deltas_sign_correctness() {
    let cfg = default_cfg();
    let mut lp = default_lp();
    let matcher = PassiveOracleBpsMatcher;

    let result = matcher.execute_match(&cfg, &mut lp, 100_000, 10, None);
    assert_eq!(result.reason, Reason::Filled);
    assert!(result.execution.size > 0, "size should be positive for buy");
    assert!(
        result.quote_delta_lp > 0,
        "quote_delta_lp should be positive (LP receives quote)"
    );
    assert_eq!(result.execution.price, 100_500);
    assert_eq!(result.execution.size, 10);
    assert_eq!(result.quote_delta_lp, 1_005_000);
    assert_eq!(lp.inventory_base, -10);
}

#[test]
fn test_sell_deltas_sign_correctness() {
    let cfg = default_cfg();
    let mut lp = default_lp();
    let matcher = PassiveOracleBpsMatcher;

    let result = matcher.execute_match(&cfg, &mut lp, 100_000, -10, None);
    assert_eq!(result.reason, Reason::Filled);
    assert!(
        result.execution.size < 0,
        "size should be negative for sell"
    );
    assert!(
        result.quote_delta_lp < 0,
        "quote_delta_lp should be negative (LP pays quote)"
    );
    assert_eq!(result.execution.price, 99_500);
    assert_eq!(result.execution.size, -10);
    assert_eq!(result.quote_delta_lp, -995_000);
    assert_eq!(lp.inventory_base, 10);
}

#[test]
fn test_zero_qty_rejected() {
    let cfg = default_cfg();
    let mut lp = default_lp();
    let matcher = PassiveOracleBpsMatcher;

    let result = matcher.execute_match(&cfg, &mut lp, 100_000, 0, None);
    assert_eq!(result.reason, Reason::ZeroQty);
}

#[test]
fn test_below_min_qty_rejected() {
    let cfg = PassiveMatcherConfig {
        min_base_qty: 10,
        ..default_cfg()
    };
    let mut lp = default_lp();
    let matcher = PassiveOracleBpsMatcher;

    let result = matcher.execute_match(&cfg, &mut lp, 100_000, 5, None);
    assert_eq!(result.reason, Reason::ZeroQty);
}

#[test]
fn test_max_size_cap() {
    let cfg = PassiveMatcherConfig {
        max_base_qty: 5,
        ..default_cfg()
    };
    let mut lp = default_lp();
    let matcher = PassiveOracleBpsMatcher;

    let result = matcher.execute_match(&cfg, &mut lp, 100_000, 100, None);
    assert_eq!(result.reason, Reason::Filled);
    assert_eq!(result.execution.size, 5);
}

#[test]
fn test_buy_with_exact_limit_succeeds() {
    let cfg = default_cfg();
    let mut lp = default_lp();
    let matcher = PassiveOracleBpsMatcher;

    let result = matcher.execute_match(&cfg, &mut lp, 100_000, 10, Some(100_500));
    assert_eq!(result.reason, Reason::Filled);
    assert_eq!(result.execution.size, 10);
}

#[test]
fn test_sell_with_exact_limit_succeeds() {
    let cfg = default_cfg();
    let mut lp = default_lp();
    let matcher = PassiveOracleBpsMatcher;

    let result = matcher.execute_match(&cfg, &mut lp, 100_000, -10, Some(99_500));
    assert_eq!(result.reason, Reason::Filled);
    assert_eq!(result.execution.size, -10);
}

#[test]
fn test_inventory_updates_correctly() {
    let cfg = default_cfg();
    let mut lp = PassiveLpState { inventory_base: 5 };
    let matcher = PassiveOracleBpsMatcher;

    let result = matcher.execute_match(&cfg, &mut lp, 100_000, 3, None);
    assert_eq!(result.reason, Reason::Filled);
    assert_eq!(lp.inventory_base, 2);

    let result = matcher.execute_match(&cfg, &mut lp, 100_000, -10, None);
    assert_eq!(result.reason, Reason::Filled);
    assert_eq!(lp.inventory_base, 12);
}

#[test]
fn test_large_price_no_overflow() {
    let cfg = default_cfg();
    let mut lp = default_lp();
    let matcher = PassiveOracleBpsMatcher;

    let large_price = 1_000_000_000_000u64;
    let result = matcher.execute_match(&cfg, &mut lp, large_price, 1000, None);
    assert_eq!(result.reason, Reason::Filled);
    assert!(result.execution.size > 0);
}
