//! Matches at the quote.
use percolator_match::passive_lp_matcher::{
    compute_quote, MatchResult, MatchingEngine, PassiveLpState, PassiveMatcherConfig,
    PassiveOracleBpsMatcher, Reason,
};

fn default_cfg() -> PassiveMatcherConfig {
    PassiveMatcherConfig::default()
}

fn default_lp() -> PassiveLpState {
    PassiveLpState::default()
}

fn matcher() -> PassiveOracleBpsMatcher {
    PassiveOracleBpsMatcher
}

#[test]
fn new3_buy_req_produces_positive_exec_size() {
    let mut lp = default_lp();
    let r = matcher().execute_match(&default_cfg(), &mut lp, 100_000, 1, None);
    assert_eq!(r.reason, Reason::Filled);
    assert!(r.execution.size > 0, "buy req must produce positive exec size, got {}", r.execution.size);
}

#[test]
fn new3_sell_req_produces_negative_exec_size() {
    let mut lp = default_lp();
    let r = matcher().execute_match(&default_cfg(), &mut lp, 100_000, -1, None);
    assert_eq!(r.reason, Reason::Filled);
    assert!(r.execution.size < 0, "sell req must produce negative exec size, got {}", r.execution.size);
}

#[test]
fn new3_buy_lp_inventory_goes_negative() {
    let mut lp = PassiveLpState { inventory_base: 0 };
    let r = matcher().execute_match(&default_cfg(), &mut lp, 100_000, 10, None);
    assert_eq!(r.reason, Reason::Filled);
    assert!(
        lp.inventory_base < 0,
        "LP must go short after user buy, got inventory={}",
        lp.inventory_base
    );
    assert_eq!(lp.inventory_base, -10);
}

#[test]
fn new3_sell_lp_inventory_goes_positive() {
    let mut lp = PassiveLpState { inventory_base: 0 };
    let r = matcher().execute_match(&default_cfg(), &mut lp, 100_000, -10, None);
    assert_eq!(r.reason, Reason::Filled);
    assert!(
        lp.inventory_base > 0,
        "LP must go long after user sell, got inventory={}",
        lp.inventory_base
    );
    assert_eq!(lp.inventory_base, 10);
}

#[test]
fn new3_buy_lp_receives_quote() {
    let mut lp = default_lp();
    let r = matcher().execute_match(&default_cfg(), &mut lp, 100_000, 5, None);
    assert_eq!(r.reason, Reason::Filled);
    assert!(
        r.quote_delta_lp > 0,
        "LP must receive quote on user buy, got {}",
        r.quote_delta_lp
    );
}

#[test]
fn new3_sell_lp_pays_quote() {
    let mut lp = default_lp();
    let r = matcher().execute_match(&default_cfg(), &mut lp, 100_000, -5, None);
    assert_eq!(r.reason, Reason::Filled);
    assert!(
        r.quote_delta_lp < 0,
        "LP must pay quote on user sell, got {}",
        r.quote_delta_lp
    );
}

#[test]
fn new3_large_buy_never_inverts_to_sell() {
    let large_buy: i128 = i64::MAX as i128;
    let mut lp = default_lp();
    let r = matcher().execute_match(&default_cfg(), &mut lp, 100_000, large_buy, None);
    assert!(
        r.execution.size >= 0,
        "large buy must never become a sell, got {}",
        r.execution.size
    );
}

#[test]
fn quote_bid_is_below_oracle() {
    let q = compute_quote(&default_cfg(), 100_000).unwrap();
    assert!(q.bid < 100_000, "bid must be below oracle");
}

#[test]
fn quote_ask_is_above_oracle() {
    let q = compute_quote(&default_cfg(), 100_000).unwrap();
    assert!(q.ask > 100_000, "ask must be above oracle");
}

#[test]
fn quote_zero_oracle_returns_none() {
    assert!(compute_quote(&default_cfg(), 0).is_none());
}

#[test]
fn quote_known_vector_50bps() {
    let q = compute_quote(&default_cfg(), 100_000).unwrap();
    assert_eq!(q.bid, 99_500);
    assert_eq!(q.ask, 100_500);
}

#[test]
fn quote_ask_rounds_up_known_vector() {
    let q = compute_quote(&default_cfg(), 100_001).unwrap();
    assert_eq!(q.ask, 100_502);
}

#[test]
fn quote_bid_rounds_down_known_vector() {
    let q = compute_quote(&default_cfg(), 100_001).unwrap();
    assert_eq!(q.bid, 99_500);
}

#[test]
fn buy_executes_at_ask() {
    let mut lp = default_lp();
    let r = matcher().execute_match(&default_cfg(), &mut lp, 100_000, 1, None);
    assert_eq!(r.reason, Reason::Filled);
    let q = compute_quote(&default_cfg(), 100_000).unwrap();
    assert_eq!(r.execution.price, q.ask, "buy must execute at ask");
}

#[test]
fn sell_executes_at_bid() {
    let mut lp = default_lp();
    let r = matcher().execute_match(&default_cfg(), &mut lp, 100_000, -1, None);
    assert_eq!(r.reason, Reason::Filled);
    let q = compute_quote(&default_cfg(), 100_000).unwrap();
    assert_eq!(r.execution.price, q.bid, "sell must execute at bid");
}

#[test]
fn buy_quote_delta_equals_price_times_size() {
    let mut lp = default_lp();
    let r = matcher().execute_match(&default_cfg(), &mut lp, 100_000, 7, None);
    assert_eq!(r.reason, Reason::Filled);
    let expected_quote = r.execution.price as i128 * r.execution.size.abs();
    assert_eq!(r.quote_delta_lp, expected_quote);
}

#[test]
fn sell_quote_delta_equals_negative_price_times_size() {
    let mut lp = default_lp();
    let r = matcher().execute_match(&default_cfg(), &mut lp, 100_000, -7, None);
    assert_eq!(r.reason, Reason::Filled);
    let expected_quote = -(r.execution.price as i128 * r.execution.size.abs());
    assert_eq!(r.quote_delta_lp, expected_quote);
}

#[test]
fn buy_limit_at_ask_succeeds() {
    let q = compute_quote(&default_cfg(), 100_000).unwrap();
    let mut lp = default_lp();
    let r = matcher().execute_match(&default_cfg(), &mut lp, 100_000, 1, Some(q.ask));
    assert_eq!(r.reason, Reason::Filled);
}

#[test]
fn buy_limit_below_ask_fails() {
    let q = compute_quote(&default_cfg(), 100_000).unwrap();
    let mut lp = default_lp();
    let r = matcher().execute_match(&default_cfg(), &mut lp, 100_000, 1, Some(q.ask - 1));
    assert_eq!(r.reason, Reason::TakerLimitTooTight);
    assert_eq!(r.execution.size, 0);
}

#[test]
fn sell_limit_at_bid_succeeds() {
    let q = compute_quote(&default_cfg(), 100_000).unwrap();
    let mut lp = default_lp();
    let r = matcher().execute_match(&default_cfg(), &mut lp, 100_000, -1, Some(q.bid));
    assert_eq!(r.reason, Reason::Filled);
}

#[test]
fn sell_limit_above_bid_fails() {
    let q = compute_quote(&default_cfg(), 100_000).unwrap();
    let mut lp = default_lp();
    let r = matcher().execute_match(&default_cfg(), &mut lp, 100_000, -1, Some(q.bid + 1));
    assert_eq!(r.reason, Reason::TakerLimitTooTight);
    assert_eq!(r.execution.size, 0);
}

#[test]
fn zero_qty_rejected() {
    let mut lp = default_lp();
    let r = matcher().execute_match(&default_cfg(), &mut lp, 100_000, 0, None);
    assert_eq!(r.reason, Reason::ZeroQty);
}

#[test]
fn below_min_base_qty_rejected() {
    let cfg = PassiveMatcherConfig { min_base_qty: 10, ..default_cfg() };
    let mut lp = default_lp();
    let r = matcher().execute_match(&cfg, &mut lp, 100_000, 5, None);
    assert_eq!(r.reason, Reason::ZeroQty);
    assert_eq!(lp.inventory_base, 0);
}

#[test]
fn at_min_base_qty_succeeds() {
    let cfg = PassiveMatcherConfig { min_base_qty: 10, ..default_cfg() };
    let mut lp = default_lp();
    let r = matcher().execute_match(&cfg, &mut lp, 100_000, 10, None);
    assert_eq!(r.reason, Reason::Filled);
}

#[test]
fn zero_oracle_rejected() {
    let mut lp = default_lp();
    let r = matcher().execute_match(&default_cfg(), &mut lp, 0, 1, None);
    assert_eq!(r.reason, Reason::OracleZero);
}

#[test]
fn buy_capped_at_max_base_qty() {
    let cfg = PassiveMatcherConfig { max_base_qty: 5, ..default_cfg() };
    let mut lp = default_lp();
    let r = matcher().execute_match(&cfg, &mut lp, 100_000, 1000, None);
    assert_eq!(r.reason, Reason::Filled);
    assert_eq!(r.execution.size, 5, "exec size must be capped at max_base_qty");
    assert_eq!(lp.inventory_base, -5);
}

#[test]
fn sell_capped_at_max_base_qty() {
    let cfg = PassiveMatcherConfig { max_base_qty: 5, ..default_cfg() };
    let mut lp = default_lp();
    let r = matcher().execute_match(&cfg, &mut lp, 100_000, -1000, None);
    assert_eq!(r.reason, Reason::Filled);
    assert_eq!(r.execution.size, -5);
    assert_eq!(lp.inventory_base, 5);
}

#[test]
fn inventory_limit_buy_rejected_when_at_max() {
    let cfg = PassiveMatcherConfig {
        max_abs_inventory: 10,
        ..default_cfg()
    };
    let mut lp = PassiveLpState { inventory_base: -10 };
    let r = matcher().execute_match(&cfg, &mut lp, 100_000, 1, None);
    assert_eq!(r.reason, Reason::LpInventoryLimit);
    assert_eq!(lp.inventory_base, -10, "inventory must not change on rejection");
}

#[test]
fn inventory_limit_sell_rejected_when_at_max() {
    let cfg = PassiveMatcherConfig {
        max_abs_inventory: 10,
        ..default_cfg()
    };
    let mut lp = PassiveLpState { inventory_base: 10 };
    let r = matcher().execute_match(&cfg, &mut lp, 100_000, -1, None);
    assert_eq!(r.reason, Reason::LpInventoryLimit);
    assert_eq!(lp.inventory_base, 10, "inventory must not change on rejection");
}

#[test]
fn inventory_limit_buy_accepted_when_one_below_limit() {
    let cfg = PassiveMatcherConfig {
        max_abs_inventory: 10,
        ..default_cfg()
    };
    let mut lp = PassiveLpState { inventory_base: -9 };
    let r = matcher().execute_match(&cfg, &mut lp, 100_000, 1, None);
    assert_eq!(r.reason, Reason::Filled);
    assert_eq!(lp.inventory_base, -10);
}

#[test]
fn inventory_state_unchanged_on_any_rejection() {
    let rejects: &[(i128, i128, Option<u64>)] = &[
        (100_000, 0, None),
        (0, 1, None),
        (100_000, 1, Some(0)),
    ];
    for (oracle, size, limit) in rejects {
        let mut lp = PassiveLpState { inventory_base: 42 };
        let _ = matcher().execute_match(&default_cfg(), &mut lp, *oracle as u64, *size, *limit);
        assert_eq!(lp.inventory_base, 42, "inventory must not change on rejection");
    }
}

#[test]
fn sequential_trades_inventory_accumulates() {
    let mut lp = PassiveLpState { inventory_base: 0 };
    let oracle = 100_000u64;

    let r1 = matcher().execute_match(&default_cfg(), &mut lp, oracle, 3, None);
    assert_eq!(r1.reason, Reason::Filled);
    assert_eq!(lp.inventory_base, -3);

    let r2 = matcher().execute_match(&default_cfg(), &mut lp, oracle, -10, None);
    assert_eq!(r2.reason, Reason::Filled);
    assert_eq!(lp.inventory_base, 7);

    let r3 = matcher().execute_match(&default_cfg(), &mut lp, oracle, 7, None);
    assert_eq!(r3.reason, Reason::Filled);
    assert_eq!(lp.inventory_base, 0);

    assert_eq!(r1.execution.size, 3);
    assert_eq!(r2.execution.size, -10);
    assert_eq!(r3.execution.size, 7);
}

#[test]
fn unfilled_has_zero_price_and_size() {
    let r = MatchResult::unfilled(Reason::OracleZero);
    assert_eq!(r.execution.price, 0);
    assert_eq!(r.execution.size, 0);
    assert_eq!(r.quote_delta_lp, 0);
}

#[test]
fn filled_carries_correct_values() {
    let r = MatchResult::filled(99_500, -10, -995_000);
    assert_eq!(r.execution.price, 99_500);
    assert_eq!(r.execution.size, -10);
    assert_eq!(r.quote_delta_lp, -995_000);
    assert_eq!(r.reason, Reason::Filled);
}

#[test]
fn trait_impl_produces_same_result_as_direct_call() {

    let cfg = default_cfg();
    let oracle = 100_000u64;
    let req_size = 10i128;

    let mut lp1 = default_lp();
    let mut lp2 = default_lp();
    let m = PassiveOracleBpsMatcher;

    let r1 = PassiveOracleBpsMatcher::execute_match(&m, &cfg, &mut lp1, oracle, req_size, None);
    let r2 = <PassiveOracleBpsMatcher as MatchingEngine>::execute_match(
        &m, &cfg, &mut lp2, oracle, req_size, None,
    );

    assert_eq!(r1.execution.price, r2.execution.price);
    assert_eq!(r1.execution.size, r2.execution.size);
    assert_eq!(r1.reason, r2.reason);
    assert_eq!(lp1.inventory_base, lp2.inventory_base);
}

#[test]
fn max_oracle_price_buy_no_panic() {
    let cfg = PassiveMatcherConfig {
        edge_bps: 1,
        ..default_cfg()
    };
    let mut lp = default_lp();
    let r = matcher().execute_match(&cfg, &mut lp, u64::MAX, 1, None);
    if r.reason == Reason::Filled {
        assert!(r.execution.size > 0);
    } else {
        assert_eq!(r.execution.size, 0);
    }
}

#[test]
fn inventory_limit_partial_fill_buy() {
    let cfg = PassiveMatcherConfig {
        max_abs_inventory: 10,
        ..default_cfg()
    };
    let mut lp = PassiveLpState { inventory_base: -9 };
    let r = matcher().execute_match(&cfg, &mut lp, 100_000, 5, None);
    assert_eq!(r.reason, Reason::Filled, "partial fill expected, got {:?}", r.reason);
    assert_eq!(r.execution.size, 1, "fill must be clipped to headroom=1");
    assert_eq!(lp.inventory_base, -10, "inventory at limit after fill");
}

#[test]
fn inventory_limit_partial_fill_sell() {
    let cfg = PassiveMatcherConfig {
        max_abs_inventory: 10,
        ..default_cfg()
    };
    let mut lp = PassiveLpState { inventory_base: 9 };
    let r = matcher().execute_match(&cfg, &mut lp, 100_000, -5, None);
    assert_eq!(r.reason, Reason::Filled, "partial fill expected, got {:?}", r.reason);
    assert_eq!(r.execution.size, -1, "fill must be clipped to headroom=1");
    assert_eq!(lp.inventory_base, 10, "inventory at limit after fill");
}

#[test]
fn inventory_limit_at_limit_buy_is_full_reject() {
    let cfg = PassiveMatcherConfig {
        max_abs_inventory: 10,
        ..default_cfg()
    };
    let mut lp = PassiveLpState { inventory_base: -10 };
    let r = matcher().execute_match(&cfg, &mut lp, 100_000, 1, None);
    assert_eq!(r.reason, Reason::LpInventoryLimit);
    assert_eq!(r.execution.size, 0);
    assert_eq!(lp.inventory_base, -10);
}
