//! The laws of the library on concrete values.
use percolator_match::vamm::{
    check_inventory_limit, compute_execution, compute_insurance_fee, compute_passive_execution,
    compute_skew_extra_bps, compute_vamm_execution, process_batch_call, process_call,
};
use percolator_match::{
    compute_quote, Account, InitParams, MatcherCall, MatcherCtx, MatcherError, MatcherKind,
    MatcherReturn, PassiveLpState, PassiveMatcherConfig, PassiveOracleBpsMatcher, Reason,
    CTX_RETURN_OFFSET, CTX_VAMM_LEN, CTX_VAMM_OFFSET, FLAG_PARTIAL_OK, FLAG_VALID,
    INIT_CTX_LEN_V3, MATCHER_BATCH_MAX_LEGS, MATCHER_CONTEXT_LEN, MATCHER_MAGIC,
    MATCHER_RETURN_LEN, MATCHER_VERSION, ORACLE_PRICE_E6_MAX,
};

const KEY: [u8; 32] = [1; 32];

fn vamm() -> MatcherCtx {
    MatcherCtx {
        magic: MATCHER_MAGIC,
        version: MATCHER_VERSION,
        kind: MatcherKind::Vamm as u8,
        lp_pda: KEY,
        trading_fee_bps: 5,
        base_spread_bps: 10,
        max_total_bps: 200,
        impact_k_bps: 100,
        liquidity_notional_e6: 1_000_000_000_000,
        max_fill_abs: 1_000_000_000_000,
        ..MatcherCtx::default()
    }
}

fn passive() -> MatcherCtx {
    MatcherCtx { kind: MatcherKind::Passive as u8, ..vamm() }
}

fn call(oracle: u64, size: i128) -> MatcherCall {
    MatcherCall {
        req_id: 1,
        asset_index: 2,
        lp_account_id: 3,
        oracle_price_e6: oracle,
        req_size: size,
    }
}

fn price(ctx: &MatcherCtx, oracle: u64, size: i128) -> u64 {
    compute_execution(ctx, &call(oracle, size)).unwrap().0
}

fn size(ctx: &MatcherCtx, oracle: u64, size: i128) -> i128 {
    compute_execution(ctx, &call(oracle, size)).unwrap().1
}

fn account(ctx: &MatcherCtx) -> Account {
    let mut data = vec![0u8; MATCHER_CONTEXT_LEN];
    ctx.write_to(&mut data[CTX_VAMM_OFFSET..]).unwrap();
    Account { key: [2; 32], owner: [3; 32], is_signer: false, is_writable: true, data }
}

fn provider() -> Account {
    Account { key: KEY, owner: [0; 32], is_signer: true, is_writable: false, data: Vec::new() }
}

fn call_bytes(oracle: u64, size: i128) -> Vec<u8> {
    let mut d = vec![0u8; 67];
    d[19..27].copy_from_slice(&oracle.to_le_bytes());
    d[27..43].copy_from_slice(&size.to_le_bytes());
    d
}

fn batch_bytes(legs: &[(u16, u64, i128)]) -> Vec<u8> {
    let mut d = vec![3u8, legs.len() as u8];
    d.extend_from_slice(&[0; 16]);
    for &(asset, oracle, size) in legs {
        d.extend_from_slice(&asset.to_le_bytes());
        d.extend_from_slice(&oracle.to_le_bytes());
        d.extend_from_slice(&size.to_le_bytes());
    }
    d
}

fn state(a: &Account) -> MatcherCtx {
    MatcherCtx::read_from(&a.data[CTX_VAMM_OFFSET..]).unwrap()
}

#[test]
fn account_parts_fit_together() {
    assert_eq!(CTX_RETURN_OFFSET + MATCHER_RETURN_LEN, CTX_VAMM_OFFSET);
    assert_eq!(CTX_VAMM_OFFSET + CTX_VAMM_LEN, MATCHER_CONTEXT_LEN);
    assert_eq!(MATCHER_BATCH_MAX_LEGS * MATCHER_RETURN_LEN, 1024);
}

#[test]
fn answers_are_found_at_their_offsets() {
    let r = MatcherReturn::filled(258, -2, 3, 4, 5, 6);
    let mut data = [9u8; 70];
    r.write_to(&mut data).unwrap();
    assert_eq!(data[0..8], [3, 0, 0, 0, 1, 0, 0, 0]);
    assert_eq!(data[8..16], [2, 1, 0, 0, 0, 0, 0, 0]);
    assert_eq!(data[16], 0xfe);
    assert_eq!(data[17..32], [0xff; 15]);
    assert_eq!([data[32], data[40], data[48], data[56]], [3, 4, 6, 5]);
    assert_eq!(data[64..], [9; 6]);
    assert_eq!(r.write_to(&mut data[..63]), Err(MatcherError::AccountDataTooSmall));
}

#[test]
fn answers_of_each_kind() {
    let rejected = MatcherReturn::rejected(1, 2, 3, 4);
    assert_eq!(rejected.flags, 5);
    assert_eq!((rejected.exec_price_e6, rejected.exec_size), (1, 0));
    let zero = MatcherReturn::zero_fill(1, 2, 3, 4);
    assert_eq!(zero.flags, 3);
    assert_eq!((zero.req_id, zero.lp_account_id, zero.asset_index), (1, 2, 3));
    assert_eq!(zero.oracle_price_e6, 4);
    assert_eq!(MatcherReturn::default().abi_version, 0);
}

#[test]
fn parameters_round_trip_in_both_forms() {
    let p = InitParams {
        kind: 1,
        trading_fee_bps: 2,
        base_spread_bps: 3,
        max_total_bps: 4,
        impact_k_bps: 5,
        liquidity_notional_e6: 6,
        max_fill_abs: u128::MAX,
        max_inventory_abs: 8,
        fee_to_insurance_bps: 9,
        skew_spread_mult_bps: 10,
        lp_account_id: 11,
    };
    let full = InitParams::parse(&p.encode()).unwrap();
    assert_eq!(full.encode(), p.encode());
    let short = InitParams::parse(&p.encode()[..INIT_CTX_LEN_V3]).unwrap();
    assert_eq!(short.max_fill_abs, u128::MAX);
    assert_eq!(short.max_inventory_abs, 8);
    assert_eq!(short.fee_to_insurance_bps, 0);
    assert_eq!(short.skew_spread_mult_bps, 0);
    assert_eq!(short.lp_account_id, 0);
    for cut in INIT_CTX_LEN_V3..78 {
        let cut_off = InitParams::parse(&p.encode()[..cut]).unwrap();
        assert_eq!(cut_off.encode(), short.encode());
    }
    for cut in 0..INIT_CTX_LEN_V3 {
        let refused = InitParams::parse(&p.encode()[..cut]);
        assert_eq!(refused.err(), Some(MatcherError::InvalidInstructionData));
    }
    let mut longer = p.encode().to_vec();
    longer.push(1);
    assert_eq!(InitParams::parse(&longer).unwrap().encode(), p.encode());
}

#[test]
fn state_round_trips_but_for_padding() {
    let ctx = MatcherCtx {
        _pad0: [1; 3],
        _new_pad: [2; 4],
        _reserved: [3; 80],
        inventory_base: -5,
        ..vamm()
    };
    let mut data = [0u8; CTX_VAMM_LEN];
    ctx.write_to(&mut data).unwrap();
    assert_eq!(data[13..16], [1; 3]);
    let back = MatcherCtx::read_from(&data).unwrap();
    assert_eq!(back._pad0, [0; 3]);
    assert_eq!(back._new_pad, [0; 4]);
    assert_eq!(back._reserved, [3; 80]);
    assert_eq!(back.inventory_base, -5);
    let mut again = [7u8; CTX_VAMM_LEN];
    back.write_to(&mut again).unwrap();
    let third = MatcherCtx::read_from(&again).unwrap();
    let mut last = [0u8; CTX_VAMM_LEN];
    third.write_to(&mut last).unwrap();
    assert_eq!(again, last);
}

#[test]
fn state_needs_room_and_a_mark() {
    assert_eq!(
        MatcherCtx::read_from(&[0; CTX_VAMM_LEN - 1]).err(),
        Some(MatcherError::AccountDataTooSmall)
    );
    assert_eq!(
        MatcherCtx::read_from(&[0; CTX_VAMM_LEN]).err(),
        Some(MatcherError::UninitializedAccount)
    );
    assert_eq!(
        vamm().write_to(&mut [0; CTX_VAMM_LEN - 1]),
        Err(MatcherError::AccountDataTooSmall)
    );
    assert!(!MatcherCtx::is_initialized(&MATCHER_MAGIC.to_le_bytes()[..7]));
    assert!(MatcherCtx::is_initialized(&MATCHER_MAGIC.to_le_bytes()));
}

#[test]
fn position_stays_within_its_bound() {
    for inventory in [-10i128, -3, 0, 4, 10] {
        for fill in [0u128, 1, 7, 20, 1_000] {
            for is_buy in [true, false] {
                let ctx = MatcherCtx { max_inventory_abs: 10, inventory_base: inventory, ..vamm() };
                let allowed = check_inventory_limit(&ctx, fill, is_buy).unwrap();
                assert!(allowed <= fill);
                let after = inventory + if is_buy { -(allowed as i128) } else { allowed as i128 };
                assert!(after.unsigned_abs() <= 10);
            }
        }
    }
}

#[test]
fn bound_overflows_are_reported() {
    let ctx = MatcherCtx { max_inventory_abs: 10, inventory_base: i128::MIN, ..vamm() };
    assert_eq!(check_inventory_limit(&ctx, 1, true), Err(MatcherError::ArithmeticOverflow));
    assert_eq!(check_inventory_limit(&ctx, 1, false), Err(MatcherError::ArithmeticOverflow));
    let ctx = MatcherCtx { max_inventory_abs: 10, inventory_base: i128::MAX, ..vamm() };
    assert_eq!(check_inventory_limit(&ctx, 1, true), Err(MatcherError::ArithmeticOverflow));
    let ctx = MatcherCtx { max_inventory_abs: 0, inventory_base: i128::MAX, ..vamm() };
    assert_eq!(check_inventory_limit(&ctx, 1, false), Ok(1));
}

#[test]
fn answered_sizes_keep_side_and_limits() {
    let ctx = MatcherCtx { max_fill_abs: 50, ..vamm() };
    assert_eq!(size(&ctx, 100_000_000, 20), 20);
    assert_eq!(size(&ctx, 100_000_000, -20), -20);
    assert_eq!(size(&ctx, 100_000_000, 80), 50);
    assert_eq!(size(&ctx, 100_000_000, -80), -50);
}

#[test]
fn nothing_filled_names_the_oracle_price() {
    let none = Ok((123, 0, FLAG_VALID | FLAG_PARTIAL_OK));
    assert_eq!(compute_execution(&vamm(), &call(123, 0)), none);
    let ctx = MatcherCtx { max_fill_abs: 0, ..passive() };
    assert_eq!(compute_execution(&ctx, &call(123, 7)), none);
    assert_eq!(compute_passive_execution(&ctx, &call(123, -7)), none);
    assert_eq!(compute_vamm_execution(&ctx, &call(123, -7)), none);
}

#[test]
fn unknown_kind_has_no_price() {
    let ctx = MatcherCtx { kind: 2, ..vamm() };
    assert_eq!(
        compute_execution(&ctx, &call(100, 1)),
        Err(MatcherError::InvalidInstructionData)
    );
}

#[test]
fn prices_favour_the_provider() {
    // 15 basis points of 1_001: 1_002.5015 and 999.4985.
    assert_eq!(price(&passive(), 1_001, 1), 1_003);
    assert_eq!(price(&passive(), 1_001, -1), 999);
    // An even price is not rounded.
    assert_eq!(price(&passive(), 20_000, 1), 20_030);
    assert_eq!(price(&passive(), 20_000, -1), 19_970);
}

#[test]
fn wider_spread_worse_price() {
    let wide = MatcherCtx { base_spread_bps: 100, ..passive() };
    assert!(price(&wide, 1_000_000, 1) > price(&passive(), 1_000_000, 1));
    assert!(price(&wide, 1_000_000, -1) < price(&passive(), 1_000_000, -1));
}

#[test]
fn total_stops_at_the_configured_one() {
    // Impact alone would be 10_000 basis points.
    assert_eq!(price(&vamm(), 100_000_000, 1_000_000_000_000), 102_000_000);
    let skewed = MatcherCtx {
        skew_spread_mult_bps: 10_000,
        inventory_base: -1_000_000,
        ..passive()
    };
    assert_eq!(price(&skewed, 100_000_000, 1), 102_000_000);
    assert_eq!(price(&skewed, 100_000_000, -1), 99_850_000);
}

#[test]
fn impact_follows_the_formula() {
    // Value 50_000_000_000 against 1e12, at 100 basis points: 5.
    assert_eq!(price(&vamm(), 100_000_000, 500_000_000), 100_200_000);
    assert_eq!(price(&vamm(), 100_000_000, -500_000_000), 99_800_000);
}

#[test]
fn larger_requests_get_no_better_price() {
    let sizes = [1i128, 1_000, 1_000_000, 100_000_000, 10_000_000_000];
    for pair in sizes.windows(2) {
        assert!(price(&vamm(), 100_000_000, pair[0]) <= price(&vamm(), 100_000_000, pair[1]));
        assert!(price(&vamm(), 100_000_000, -pair[0]) >= price(&vamm(), 100_000_000, -pair[1]));
    }
}

#[test]
fn impact_is_computed_for_large_fills() {
    let ctx = MatcherCtx { impact_k_bps: u32::MAX, max_fill_abs: i128::MAX as u128, ..vamm() };
    assert!(compute_execution(&ctx, &call(ORACLE_PRICE_E6_MAX, 1_000_000_000_000_000_000)).is_ok());
    assert_eq!(
        compute_execution(&ctx, &call(ORACLE_PRICE_E6_MAX, i128::MAX)),
        Err(MatcherError::ArithmeticOverflow)
    );
}

#[test]
fn seller_price_needs_a_whole_unit() {
    assert_eq!(
        compute_execution(&passive(), &call(1, -1)),
        Err(MatcherError::ArithmeticOverflow)
    );
    assert_eq!(price(&passive(), 2, -1), 1);
    assert_eq!(price(&passive(), 1, 1), 2);
    let widest = MatcherCtx { base_spread_bps: 8_995, max_total_bps: 9_000, ..passive() };
    assert_eq!(price(&widest, 10, -1), 1);
    assert!(compute_execution(&widest, &call(9, -1)).is_err());
}

#[test]
fn price_beyond_64_bits_is_reported() {
    assert_eq!(
        compute_execution(&passive(), &call(u64::MAX, 1)),
        Err(MatcherError::ArithmeticOverflow)
    );
}

#[test]
fn skew_widens_one_side_only() {
    let ctx = MatcherCtx { skew_spread_mult_bps: 200, inventory_base: 1_000, ..passive() };
    assert_eq!(compute_skew_extra_bps(&ctx, false), 20);
    assert_eq!(compute_skew_extra_bps(&ctx, true), 0);
    let larger = MatcherCtx { inventory_base: 2_000, ..ctx };
    assert_eq!(compute_skew_extra_bps(&larger, false), 40);
    let short = MatcherCtx { inventory_base: i128::MIN, ..ctx };
    assert_eq!(compute_skew_extra_bps(&short, true), 5000);
    assert_eq!(compute_skew_extra_bps(&short, false), 0);
}

#[test]
fn limits_beyond_128_bits_are_not_valid() {
    assert!(vamm().validate().is_ok());
    let fill = MatcherCtx { max_fill_abs: 1 << 127, ..vamm() };
    assert_eq!(fill.validate(), Err(MatcherError::InvalidAccountData));
    let position = MatcherCtx { max_inventory_abs: 1 << 127, ..vamm() };
    assert_eq!(position.validate(), Err(MatcherError::InvalidAccountData));
}

#[test]
fn fee_stays_near_the_trading_fee() {
    let ctx = MatcherCtx {
        trading_fee_bps: 3,
        fee_to_insurance_bps: 10_000,
        insurance_fee_remainder_e6: 99_999_999_999_999,
        ..vamm()
    };
    // The trading fee is 1.000_199_999_7 units.
    assert_eq!(compute_insurance_fee(&ctx, 3_333_999_999, 1).0, 2);
    let clean = MatcherCtx { insurance_fee_remainder_e6: 0, ..ctx };
    assert_eq!(compute_insurance_fee(&clean, 3_333_999_999, 1).0, 1);
}

#[test]
fn fee_is_cut_where_it_does_not_fit() {
    let ctx = MatcherCtx { trading_fee_bps: 1_000, fee_to_insurance_bps: 10_000, ..vamm() };
    let (fee, remainder) = compute_insurance_fee(&ctx, i128::MIN, u64::MAX);
    assert_eq!(fee, u64::MAX);
    assert_eq!(remainder as u128, u128::MAX % 100_000_000_000_000);
}

#[test]
fn splitting_a_trade_accrues_the_same() {
    let ctx = MatcherCtx { trading_fee_bps: 7, fee_to_insurance_bps: 3_333, ..vamm() };
    let whole = compute_insurance_fee(&ctx, 1_000, 123_456_789);
    let mut split = ctx;
    let mut total: u64 = 0;
    for part in [1i128, -99, 400, 500] {
        let (fee, remainder) = compute_insurance_fee(&split, part, 123_456_789);
        total += fee;
        split.insurance_fee_remainder_e6 = remainder;
        assert!(remainder < 100_000_000_000_000);
    }
    assert_eq!((total, split.insurance_fee_remainder_e6), whole);
    // 1_000 * 123_456_789 * 7 * 3_333 = 2_880_370_344_159_000
    assert_eq!(whole, (28, 80_370_344_159_000));
}

#[test]
fn calls_keep_parameters_and_move_the_position() {
    let ctx = MatcherCtx { fee_to_insurance_bps: 500, ..vamm() };
    let mut a = account(&ctx);
    let mut position = 0i128;
    for request in [5i128, -7, 0, 11] {
        process_call(&provider(), &mut a, &call_bytes(100_000_000, request)).unwrap();
        let filled = i128::from_le_bytes(a.data[16..32].try_into().unwrap());
        position -= filled;
        let s = state(&a);
        assert_eq!(s.inventory_base, position);
        assert!(s.validate().is_ok());
        assert_eq!(s.max_fill_abs, ctx.max_fill_abs);
        assert_eq!(s.lp_pda, KEY);
    }
    assert_eq!(position, -9);
}

#[test]
fn another_key_never_gets_through() {
    let mut a = account(&vamm());
    let before = a.data.clone();
    let stranger = Account { key: [4; 32], ..provider() };
    assert_eq!(
        process_call(&stranger, &mut a, &call_bytes(100, 1)),
        Err(MatcherError::InvalidAccountData)
    );
    assert_eq!(
        process_batch_call(&stranger, &mut a, &batch_bytes(&[(0, 100, 1)])),
        Err(MatcherError::InvalidAccountData)
    );
    assert_eq!(a.data, before);
}

#[test]
fn short_accounts_are_refused() {
    let mut a = account(&vamm());
    a.data.truncate(100);
    assert_eq!(
        process_call(&provider(), &mut a, &call_bytes(100, 1)),
        Err(MatcherError::AccountDataTooSmall)
    );
}

#[test]
fn one_leg_is_one_call() {
    let ctx = MatcherCtx { fee_to_insurance_bps: 500, ..vamm() };
    let mut single = account(&ctx);
    let mut batch = account(&ctx);
    process_call(&provider(), &mut single, &call_bytes(100_000_000, 321)).unwrap();
    let returned =
        process_batch_call(&provider(), &mut batch, &batch_bytes(&[(0, 100_000_000, 321)])).unwrap();
    assert_eq!(single.data[..64], returned[..]);
    assert_eq!(single.data[64..], batch.data[64..]);
}

#[test]
fn two_batches_are_one() {
    let ctx = MatcherCtx { fee_to_insurance_bps: 500, ..vamm() };
    let legs = [(0u16, 100_000_000u64, 9i128), (1, 7_000_000, -40), (0, 100_000_000, 2)];
    let mut whole = account(&ctx);
    let all = process_batch_call(&provider(), &mut whole, &batch_bytes(&legs)).unwrap();
    let mut parts = account(&ctx);
    let mut first =
        process_batch_call(&provider(), &mut parts, &batch_bytes(&legs[..1])).unwrap();
    let second = process_batch_call(&provider(), &mut parts, &batch_bytes(&legs[1..])).unwrap();
    first.extend_from_slice(&second);
    assert_eq!(all, first);
    assert_eq!(whole.data, parts.data);
    assert_eq!(state(&whole).inventory_base, 29);
}

#[test]
fn prices_must_agree_on_one_asset() {
    let mut a = account(&vamm());
    let agree = batch_bytes(&[(5, 100, 1), (6, 200, 1), (5, 100, -1), (6, 200, 0)]);
    assert!(process_batch_call(&provider(), &mut a, &agree).is_ok());
    let differ = batch_bytes(&[(5, 100, 1), (6, 200, 1), (5, 100, -1), (6, 201, 0)]);
    assert!(process_batch_call(&provider(), &mut a, &differ).is_err());
}

#[test]
fn quotes_bracket_the_oracle_price() {
    for edge in [0u16, 1, 50, 9_999, 10_000, u16::MAX] {
        let cfg = PassiveMatcherConfig { edge_bps: edge, ..PassiveMatcherConfig::default() };
        let q = compute_quote(&cfg, 12_345).unwrap();
        assert!(q.bid <= 12_345 && 12_345 <= q.ask);
        if edge >= 10_000 {
            assert_eq!(q.bid, 0);
        }
    }
    let even = PassiveMatcherConfig { edge_bps: 0, ..PassiveMatcherConfig::default() };
    let q = compute_quote(&even, 12_345).unwrap();
    assert_eq!((q.bid, q.ask), (12_345, 12_345));
}

#[test]
fn wider_edges_give_wider_quotes() {
    let mut last = (u64::MAX, 0);
    for edge in [0u16, 10, 50, 500, 20_000] {
        let cfg = PassiveMatcherConfig { edge_bps: edge, ..PassiveMatcherConfig::default() };
        let q = compute_quote(&cfg, 1_000_003).unwrap();
        assert!(q.bid <= last.0 && q.ask >= last.1);
        last = (q.bid, q.ask);
    }
}

#[test]
fn ask_must_fit() {
    let cfg = PassiveMatcherConfig::default();
    assert!(compute_quote(&cfg, u64::MAX).is_none());
    assert!(compute_quote(&cfg, u64::MAX / 2).is_some());
    let mut lp = PassiveLpState::default();
    let r = PassiveOracleBpsMatcher.execute_match(&cfg, &mut lp, u64::MAX, 1, None);
    assert_eq!(r.reason, Reason::OracleZero);
}

#[test]
fn matches_keep_their_promises() {
    let cfg = PassiveMatcherConfig {
        max_base_qty: 30,
        max_abs_inventory: -40,
        ..PassiveMatcherConfig::default()
    };
    let mut lp = PassiveLpState::default();
    for request in [50i128, -10, 100, 5, -200, -1] {
        let before = lp.inventory_base;
        let r = PassiveOracleBpsMatcher.execute_match(&cfg, &mut lp, 100_000, request, None);
        assert_eq!(lp.inventory_base, before - r.execution.size);
        assert!(lp.inventory_base.unsigned_abs() <= 40);
        assert!(r.execution.size.unsigned_abs() <= 30);
        assert_eq!(r.quote_delta_lp, r.execution.size * r.execution.price as i128);
        if r.reason != Reason::Filled {
            assert_eq!((r.execution.price, r.execution.size), (0, 0));
        }
    }
}

#[test]
fn each_reason_for_no_match() {
    let cfg = PassiveMatcherConfig::default();
    let reason = |cfg: &PassiveMatcherConfig, inventory: i128, oracle: u64, size: i128| {
        let mut lp = PassiveLpState { inventory_base: inventory };
        let r = PassiveOracleBpsMatcher.execute_match(cfg, &mut lp, oracle, size, None);
        assert_eq!(lp.inventory_base, inventory - r.execution.size);
        r.reason
    };
    let none = PassiveMatcherConfig { max_base_qty: 0, ..cfg };
    assert_eq!(reason(&none, 0, 100, 5), Reason::LpMaxSize);
    assert_eq!(reason(&cfg, i128::MIN, 100, 1), Reason::MathOverflow);
    assert_eq!(reason(&cfg, i128::MAX, 100, -1), Reason::MathOverflow);
    let tight = PassiveMatcherConfig { max_abs_inventory: 10, ..cfg };
    // Beyond the far bound, and still beyond it after the fill.
    assert_eq!(reason(&tight, 100, 100, 5), Reason::LpInventoryLimit);
    assert_eq!(reason(&tight, -100, 100, -5), Reason::LpInventoryLimit);
    assert_eq!(reason(&tight, i128::MAX, 100, 5), Reason::MathOverflow);
    let unbounded = PassiveMatcherConfig { max_abs_inventory: i128::MIN, ..cfg };
    assert_eq!(reason(&unbounded, 0, 100, -5), Reason::Filled);
    // Size times price beyond an i128.
    let price = u64::MAX / 2;
    assert_eq!(reason(&cfg, 0, price, u64::MAX as i128), Reason::MathOverflow);
}

#[test]
fn limits_only_refuse() {
    let cfg = PassiveMatcherConfig::default();
    for limit in [99_000u64, 99_500, 100_499, 100_500, 100_501] {
        for request in [3i128, -3] {
            let mut with = PassiveLpState::default();
            let mut without = PassiveLpState::default();
            let a =
                PassiveOracleBpsMatcher.execute_match(&cfg, &mut with, 100_000, request, Some(limit));
            let b = PassiveOracleBpsMatcher.execute_match(&cfg, &mut without, 100_000, request, None);
            assert!(a == b || a.reason == Reason::TakerLimitTooTight);
        }
    }
}

#[test]
fn malformed_payloads_are_refused_on_any_account() {
    let invalid = MatcherError::InvalidInstructionData;
    for len in [0usize, 1, 63, 64, 320] {
        let mut a = account(&vamm());
        a.data = vec![7; len];
        let calls = [
            Vec::new(),
            call_bytes(100, 1)[..66].to_vec(),
            call_bytes(0, 1),
            call_bytes(ORACLE_PRICE_E6_MAX + 1, 1),
            call_bytes(100, i128::MIN),
        ];
        for data in &calls {
            assert_eq!(process_call(&provider(), &mut a, data), Err(invalid));
        }
        let mut overlong = batch_bytes(&[(0, 100, 1)]);
        overlong.push(0);
        let batches = [
            Vec::new(),
            batch_bytes(&[]),
            batch_bytes(&[(0, 100, 1)])[..43].to_vec(),
            batch_bytes(&[(0, 100, 1); 17]),
            overlong,
        ];
        for data in &batches {
            assert_eq!(process_batch_call(&provider(), &mut a, data), Err(invalid));
        }
        assert_eq!(a.data, vec![7; len]);
    }
}
