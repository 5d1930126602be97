//! Prices, impact, skew and fees on known values.
use percolator_match::vamm::{
    compute_execution, compute_insurance_fee, compute_skew_extra_bps, MatcherCtx, MatcherKind,
    MATCHER_MAGIC, MATCHER_VERSION,
};
use percolator_match::{MatcherCall, FLAG_PARTIAL_OK, FLAG_VALID};

const D: u128 = 10_000;

#[allow(clippy::too_many_arguments)]
fn vamm_ctx(
    base_spread_bps: u32,
    trading_fee_bps: u32,
    max_total_bps: u32,
    impact_k_bps: u32,
    liquidity_notional_e6: u128,
    max_fill_abs: u128,
    inventory_base: i128,
    max_inventory_abs: u128,
) -> MatcherCtx {
    MatcherCtx {
        magic: MATCHER_MAGIC,
        version: MATCHER_VERSION,
        kind: MatcherKind::Vamm as u8,
        _pad0: [0; 3],
        lp_pda: [1; 32],
        trading_fee_bps,
        base_spread_bps,
        max_total_bps,
        impact_k_bps,
        liquidity_notional_e6,
        max_fill_abs,
        inventory_base,
        last_oracle_price_e6: 0,
        last_exec_price_e6: 0,
        max_inventory_abs,
        insurance_accrued_e6: 0,
        fee_to_insurance_bps: 0,
        skew_spread_mult_bps: 0,
        _new_pad: [0; 4],
        lp_account_id: 42,
        insurance_fee_remainder_e6: 0,
        _reserved: [0; 80],
    }
}

fn passive_ctx(
    base_spread_bps: u32,
    trading_fee_bps: u32,
    max_total_bps: u32,
    max_fill_abs: u128,
) -> MatcherCtx {
    MatcherCtx {
        magic: MATCHER_MAGIC,
        version: MATCHER_VERSION,
        kind: MatcherKind::Passive as u8,
        _pad0: [0; 3],
        lp_pda: [1; 32],
        trading_fee_bps,
        base_spread_bps,
        max_total_bps,
        impact_k_bps: 0,
        liquidity_notional_e6: 0,
        max_fill_abs,
        inventory_base: 0,
        last_oracle_price_e6: 0,
        last_exec_price_e6: 0,
        max_inventory_abs: i128::MAX as u128,
        insurance_accrued_e6: 0,
        fee_to_insurance_bps: 0,
        skew_spread_mult_bps: 0,
        _new_pad: [0; 4],
        lp_account_id: 42,
        insurance_fee_remainder_e6: 0,
        _reserved: [0; 80],
    }
}

fn signed(abs_size: u128, is_buy: bool) -> i128 {
    if is_buy {
        abs_size as i128
    } else {
        -(abs_size as i128)
    }
}

fn exec(ctx: &MatcherCtx, oracle: u64, req_size: i128) -> (u64, i128, u32) {
    let call = MatcherCall {
        req_id: 1,
        asset_index: 0,
        lp_account_id: 42,
        oracle_price_e6: oracle,
        req_size,
    };
    compute_execution(ctx, &call).unwrap()
}

fn rounded(oracle: u64, total_bps: u128, is_buy: bool) -> u64 {
    let o = oracle as u128;
    if is_buy {
        (o * (D + total_bps)).div_ceil(D) as u64
    } else {
        (o * (D - total_bps) / D) as u64
    }
}

/// The price of a fill of one unit, checked against the spread worked out by hand.
fn passive_exec_price(ctx: &MatcherCtx, oracle: u64, is_buy: bool) -> u64 {
    let total_bps = (ctx.base_spread_bps + ctx.trading_fee_bps).min(ctx.max_total_bps) as u128;
    let (price, size, flags) = exec(ctx, oracle, signed(1, is_buy));
    assert_eq!(price, rounded(oracle, total_bps, is_buy));
    assert_eq!(size, signed(1, is_buy));
    assert_eq!(flags, FLAG_VALID);
    price
}

/// The price of a fill of `abs_size`, checked against the impact worked out by hand.
fn vamm_exec_price(ctx: &MatcherCtx, oracle: u64, abs_size: u128, is_buy: bool) -> u64 {
    let abs_notional_e6 = abs_size * oracle as u128 / 1_000_000;
    let impact_bps = if ctx.liquidity_notional_e6 > 0 {
        abs_notional_e6 * ctx.impact_k_bps as u128 / ctx.liquidity_notional_e6
    } else {
        0
    };
    let fixed = ctx.base_spread_bps as u128 + ctx.trading_fee_bps as u128;
    let total_bps = (fixed + impact_bps).min(ctx.max_total_bps as u128);
    let (price, size, flags) = exec(ctx, oracle, signed(abs_size, is_buy));
    assert_eq!(price, rounded(oracle, total_bps, is_buy));
    assert_eq!(size, signed(abs_size, is_buy));
    assert_eq!(flags, FLAG_VALID);
    price
}

#[test]
fn passive_buy_price_above_oracle() {
    let ctx = passive_ctx(50, 5, 500, u128::MAX / 2);
    let oracle = 100_000_000u64;
    let price = passive_exec_price(&ctx, oracle, true);
    assert!(price > oracle, "buy must price above oracle: {price} > {oracle}");
}

#[test]
fn passive_sell_price_below_oracle() {
    let ctx = passive_ctx(50, 5, 500, u128::MAX / 2);
    let oracle = 100_000_000u64;
    let price = passive_exec_price(&ctx, oracle, false);
    assert!(price < oracle, "sell must price below oracle: {price} < {oracle}");
}

#[test]
fn vamm_buy_price_above_oracle() {
    let ctx = vamm_ctx(10, 5, 500, 100, 1_000_000_000_000, u128::MAX / 2, 0, i128::MAX as u128);
    let oracle = 100_000_000u64;
    let price = vamm_exec_price(&ctx, oracle, 1_000, true);
    assert!(price > oracle);
}

#[test]
fn vamm_sell_price_below_oracle() {
    let ctx = vamm_ctx(10, 5, 500, 100, 1_000_000_000_000, u128::MAX / 2, 0, i128::MAX as u128);
    let oracle = 100_000_000u64;
    let price = vamm_exec_price(&ctx, oracle, 1_000, false);
    assert!(price < oracle);
}

#[test]
fn passive_buy_ceiling_div_known_vector() {
    let ctx = passive_ctx(50, 5, 500, u128::MAX / 2);
    let price = passive_exec_price(&ctx, 100_000_001, true);
    let total: u128 = 55;
    let num = 100_000_001u128 * (D + total);
    let expected_ceil = num.div_ceil(D);
    let expected_floor = num / D;
    assert!(
        expected_ceil > expected_floor,
        "oracle must not divide evenly for this test to be meaningful"
    );
    assert_eq!(price as u128, expected_ceil, "passive buy must use ceiling division");
}

#[test]
fn passive_sell_floor_div_known_vector() {
    let ctx = passive_ctx(50, 5, 500, u128::MAX / 2);
    let price = passive_exec_price(&ctx, 100_000_001, false);
    let total: u128 = 55;
    let expected_floor = 100_000_001u128 * (D - total) / D;
    assert_eq!(price as u128, expected_floor, "passive sell must use floor division");
}

#[test]
fn vamm_buy_ceiling_div_small_size() {
    let ctx = vamm_ctx(10, 5, 500, 100, 1_000_000_000_000u128, u128::MAX / 2, 0, i128::MAX as u128);
    let price = vamm_exec_price(&ctx, 100_000_001, 1, true);
    assert!(price as u128 >= 100_000_001u128, "vAMM buy must be >= oracle");
}

#[test]
fn vamm_larger_size_higher_buy_price() {
    let ctx = vamm_ctx(10, 5, 500, 100, 1_000_000_000_000u128, u128::MAX / 2, 0, i128::MAX as u128);
    let oracle = 100_000_000u64;
    let small = vamm_exec_price(&ctx, oracle, 1_000, true);
    let large = vamm_exec_price(&ctx, oracle, 100_000_000, true);
    assert!(large > small, "larger size must produce higher buy price: {large} > {small}");
}

#[test]
fn vamm_larger_size_lower_sell_price() {
    let ctx = vamm_ctx(10, 5, 500, 100, 1_000_000_000_000u128, u128::MAX / 2, 0, i128::MAX as u128);
    let oracle = 100_000_000u64;
    let small = vamm_exec_price(&ctx, oracle, 1_000, false);
    let large = vamm_exec_price(&ctx, oracle, 100_000_000, false);
    assert!(large < small, "larger sell size must produce lower sell price");
}

#[test]
fn vamm_total_bps_never_exceeds_max() {
    let ctx = vamm_ctx(10, 5, 200, 100, 1_000_000_000_000u128, u128::MAX / 2, 0, i128::MAX as u128);
    let oracle = 100_000_000u64;
    let price = vamm_exec_price(&ctx, oracle, 1_000_000_000_000_000u128, true);
    let max_price_floor = oracle;
    let max_bps: u128 = 200;
    let ceil_max = (oracle as u128 * (D + max_bps)).div_ceil(D) as u64;
    assert!(
        price <= ceil_max,
        "exec price {price} must not exceed max_total_bps ceiling {ceil_max}"
    );
    assert!(price > max_price_floor, "exec price must be above oracle for buy");
}

#[test]
fn passive_known_vector_oracle_100m() {
    let ctx = passive_ctx(50, 5, 200, u128::MAX / 2);
    let buy_price = passive_exec_price(&ctx, 100_000_000, true);
    let sell_price = passive_exec_price(&ctx, 100_000_000, false);
    assert_eq!(buy_price, 100_550_000);
    assert_eq!(sell_price, 99_450_000);
}

#[test]
fn max_fill_zero_returns_partial_flag_and_zero_size() {
    let ctx = vamm_ctx(10, 5, 500, 100, 1_000_000_000_000u128, 0, 0, i128::MAX as u128);
    assert_eq!(FLAG_VALID, 1u32);
    assert_eq!(FLAG_PARTIAL_OK, 2u32);
    let (price, size, flags) = exec(&ctx, 100_000_000, 1_000);
    assert_eq!(price, 100_000_000);
    assert_eq!(size, 0);
    assert_eq!(flags, FLAG_VALID | FLAG_PARTIAL_OK);
}

#[test]
fn fill_size_capped_at_max_fill_abs() {
    let ctx = passive_ctx(50, 5, 200, 500);
    let req_abs: u128 = 10_000;
    let expected_fill = req_abs.min(ctx.max_fill_abs);
    assert_eq!(expected_fill, 500);
    let (_, size, _) = exec(&ctx, 100_000_000, req_abs as i128);
    assert_eq!(size, 500);
}

#[test]
fn insurance_fee_known_vector() {
    let trading_fee_bps: u128 = 100;
    let fee_to_insurance_bps: u128 = 500;
    let exec_size: i128 = 1_000_000;
    let exec_price: u64 = 100_000_000;

    let ctx = MatcherCtx {
        trading_fee_bps: trading_fee_bps as u32,
        fee_to_insurance_bps: fee_to_insurance_bps as u16,
        ..passive_ctx(50, 5, 500, u128::MAX / 2)
    };
    let (insurance, remainder) = compute_insurance_fee(&ctx, exec_size, exec_price);

    assert_eq!(insurance as u128, 50_000u128);
    assert_eq!(remainder, 0);
}

#[test]
fn insurance_fee_symmetric_for_negative_size() {
    let trading_fee_bps: u128 = 100;
    let fee_to_insurance_bps: u128 = 500;
    let exec_price: u64 = 100_000_000;

    let ctx = MatcherCtx {
        trading_fee_bps: trading_fee_bps as u32,
        fee_to_insurance_bps: fee_to_insurance_bps as u16,
        ..passive_ctx(50, 5, 500, u128::MAX / 2)
    };
    let compute = |size: i128| compute_insurance_fee(&ctx, size, exec_price);

    assert_eq!(compute(1_000_000), compute(-1_000_000));
}

#[test]
fn passive_oracle_near_max_u64_buy_does_not_panic() {
    let large_oracle: u64 = u64::MAX / 2;
    let ctx = passive_ctx(10, 5, 100, u128::MAX / 2);
    let price = passive_exec_price(&ctx, large_oracle, true);
    assert!(price as u128 > large_oracle as u128);
}

#[test]
fn vamm_oracle_large_buy_does_not_overflow() {
    let large_oracle: u64 = u64::MAX / 2;
    let ctx = vamm_ctx(10, 5, 100, 10, 1_000_000_000_000_000_000u128, u128::MAX / 2, 0, i128::MAX as u128);
    let price = vamm_exec_price(&ctx, large_oracle, 1, true);
    assert!(price as u128 >= large_oracle as u128);
}

fn skew_extra(inventory_base: i128, skew_spread_mult_bps: u16, is_buy: bool) -> u128 {
    let ctx = MatcherCtx {
        inventory_base,
        skew_spread_mult_bps,
        ..passive_ctx(50, 5, 500, u128::MAX / 2)
    };
    compute_skew_extra_bps(&ctx, is_buy)
}

#[test]
fn skew_extra_zero_when_disabled() {
    assert_eq!(skew_extra(1000, 0, false), 0);
    assert_eq!(skew_extra(-1000, 0, true), 0);
}

#[test]
fn skew_extra_zero_when_improving_inventory() {
    assert_eq!(skew_extra(1000, 100, true), 0);
    assert_eq!(skew_extra(-1000, 100, false), 0);
}

#[test]
fn skew_extra_nonzero_when_worsening_inventory() {
    let extra = skew_extra(1000, 100, false);
    assert_eq!(extra, 10);

    let extra = skew_extra(-1000, 100, true);
    assert_eq!(extra, 10);
}

#[test]
fn skew_extra_capped_at_5000() {
    let extra = skew_extra(100_000, 10_000, false);
    assert_eq!(extra, 5000);
}

#[test]
fn skew_extra_saturates_on_overflow() {
    let extra = skew_extra(i128::MAX, 10_000, false);
    assert_eq!(extra, 5000);
}

#[test]
fn matcher_kind_passive_is_0() {
    assert_eq!(MatcherKind::Passive as u8, 0u8);
}

#[test]
fn matcher_kind_vamm_is_1() {
    assert_eq!(MatcherKind::Vamm as u8, 1u8);
}

#[test]
fn matcher_kind_roundtrip() {
    assert_eq!(MatcherKind::try_from(0u8).unwrap(), MatcherKind::Passive);
    assert_eq!(MatcherKind::try_from(1u8).unwrap(), MatcherKind::Vamm);
    assert!(MatcherKind::try_from(2u8).is_err());
    assert!(MatcherKind::try_from(255u8).is_err());
}
