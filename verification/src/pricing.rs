//! How much of a request is filled, and at what price.
use vstd::prelude::*;

use crate::abi::{MatcherCall, FLAG_PARTIAL_OK, FLAG_VALID};
use crate::context;
use crate::context::{CtxModel, MatcherCtx, MatcherKind};
use crate::error::MatcherError;
use crate::math;

verus! {

/// Basis points in a whole.
pub const BPS_DENOM: u128 = 10_000;

/// Most that inventory skew adds to the spread.
pub const MAX_SKEW_EXTRA_BPS: u128 = 5000;

/// Size times price (1e6) times trading fee (1e4) times insurance share (1e4).
pub const INSURANCE_FEE_DENOM: u128 = 100_000_000_000_000;

/// Whether filling on this side moves the inventory further from zero: a buy
/// while short, a sell while long.
pub open spec fn worsens_inventory(m: CtxModel, is_buy: bool) -> bool {
    if is_buy {
        m.inventory_base < 0
    } else {
        m.inventory_base > 0
    }
}

/// Spread added for inventory: proportional to its size on the side that
/// worsens it, at most 5000, nothing on the other side.
pub open spec fn skew_extra_bps(m: CtxModel, is_buy: bool) -> int {
    if worsens_inventory(m, is_buy) {
        math::lesser(
            math::magnitude(m.inventory_base as int) * m.skew_spread_mult_bps / 10_000,
            5000,
        )
    } else {
        0
    }
}

/// The insurance fee of a fill with what was carried over, in 1e-14 of a unit,
/// as far as 128 bits hold it.
pub open spec fn insurance_numerator(m: CtxModel, exec_size: int, exec_price: int) -> int {
    math::lesser(
        insurance_exact(m, exec_size, exec_price) + m.insurance_fee_remainder_e6,
        u128::MAX as int,
    )
}

/// The insurance fee of a fill, in 1e-14 of a unit: size times price times
/// trading fee times insurance share.
pub open spec fn insurance_exact(m: CtxModel, exec_size: int, exec_price: int) -> int {
    math::magnitude(exec_size) * exec_price * m.trading_fee_bps * m.fee_to_insurance_bps
}

/// Whole units of insurance fee that a fill accrues.
pub open spec fn insurance_fee(m: CtxModel, exec_size: int, exec_price: int) -> int {
    math::lesser(
        insurance_numerator(m, exec_size, exec_price) / (INSURANCE_FEE_DENOM as int),
        u64::MAX as int,
    )
}

/// The fraction of a unit that a fill leaves to the next one.
pub open spec fn insurance_remainder(m: CtxModel, exec_size: int, exec_price: int) -> int {
    insurance_numerator(m, exec_size, exec_price) % (INSURANCE_FEE_DENOM as int)
}

/// The inventory after a fill.
pub open spec fn inventory_after(m: CtxModel, fill: int, is_buy: bool) -> int {
    if is_buy {
        m.inventory_base - fill
    } else {
        m.inventory_base + fill
    }
}

/// How far the inventory is from its bound on the side that a fill moves it to.
pub open spec fn headroom(m: CtxModel, is_buy: bool) -> int {
    if is_buy {
        m.max_inventory_abs + m.inventory_base
    } else {
        m.max_inventory_abs - m.inventory_base
    }
}

/// How much of `fill` the inventory bound lets through: all of it where there is
/// no bound or the inventory stays within it, else what headroom is left.
pub open spec fn inventory_fill(m: CtxModel, fill: int, is_buy: bool) -> Result<int, MatcherError> {
    if m.max_inventory_abs == 0 {
        Ok(fill)
    } else if !math::fits_i128(inventory_after(m, fill, is_buy)) {
        Err(MatcherError::ArithmeticOverflow)
    } else if math::magnitude(inventory_after(m, fill, is_buy)) <= m.max_inventory_abs {
        Ok(fill)
    } else if headroom(m, is_buy) <= 0 {
        Ok(0)
    } else if !math::fits_i128(headroom(m, is_buy)) {
        Err(MatcherError::ArithmeticOverflow)
    } else {
        Ok(math::lesser(fill, headroom(m, is_buy)))
    }
}

/// The value of a fill.
pub open spec fn notional_e6(fill: int, oracle: int) -> int {
    fill * oracle / 1_000_000
}

/// Spread added for the size of a fill against the configured liquidity.
pub open spec fn impact_bps(m: CtxModel, fill: int, oracle: int) -> int {
    if m.liquidity_notional_e6 == 0 {
        0
    } else {
        notional_e6(fill, oracle) * m.impact_k_bps / (m.liquidity_notional_e6 as int)
    }
}

/// Whether the impact of a fill can be computed in 128 bits.
pub open spec fn impact_fits(m: CtxModel, fill: int, oracle: int) -> bool {
    &&& fill * oracle <= u128::MAX
    &&& m.liquidity_notional_e6 > 0 ==> notional_e6(fill, oracle) * m.impact_k_bps <= u128::MAX
}

/// Spread, fee, skew and impact together, at most the configured total.
pub open spec fn total_bps(m: CtxModel, is_buy: bool, impact: int) -> int {
    math::lesser(
        m.max_total_bps as int,
        m.base_spread_bps + m.trading_fee_bps + skew_extra_bps(m, is_buy) + impact,
    )
}

/// The oracle price moved against the user by `total` basis points, rounded
/// against the user: up for a buy, down for a sell.
pub open spec fn price_at(oracle: int, total: int, is_buy: bool) -> int {
    if is_buy {
        math::ceil_div(oracle * (10_000 + total), 10_000)
    } else {
        oracle * (10_000 - total) / 10_000
    }
}

/// The answer to a request of which `fill` is filled with `impact` basis points
/// of impact.
pub open spec fn fill_answer(m: CtxModel, call: MatcherCall, fill: int, impact: int) -> Result<
    (u64, i128, u32),
    MatcherError,
> {
    let is_buy = call.req_size > 0;
    let price = price_at(call.oracle_price_e6 as int, total_bps(m, is_buy, impact), is_buy);
    if 0 < price <= u64::MAX {
        Ok(
            (
                price as u64,
                if is_buy {
                    fill as i128
                } else {
                    (-fill) as i128
                },
                FLAG_VALID,
            ),
        )
    } else {
        Err(MatcherError::ArithmeticOverflow)
    }
}

/// The answer to a request of which nothing is filled.
pub open spec fn no_fill_answer(call: MatcherCall) -> (u64, i128, u32) {
    (call.oracle_price_e6, 0, (FLAG_VALID + FLAG_PARTIAL_OK) as u32)
}

/// How much of a request is filled: at most `max_fill_abs`, and what the
/// inventory bound lets through.
pub open spec fn fill_size(m: CtxModel, call: MatcherCall) -> Result<int, MatcherError> {
    inventory_fill(
        m,
        math::lesser(math::magnitude(call.req_size as int) as int, m.max_fill_abs as int),
        call.req_size > 0,
    )
}

/// What a passive provider answers: price, size, flags.
pub open spec fn passive_execution(m: CtxModel, call: MatcherCall) -> Result<
    (u64, i128, u32),
    MatcherError,
> {
    match fill_size(m, call) {
        Err(e) => Err(e),
        Ok(fill) => if fill == 0 {
            Ok(no_fill_answer(call))
        } else {
            fill_answer(m, call, fill, 0)
        },
    }
}

/// What a vAMM provider answers: price, size, flags.
pub open spec fn vamm_execution(m: CtxModel, call: MatcherCall) -> Result<
    (u64, i128, u32),
    MatcherError,
> {
    match fill_size(m, call) {
        Err(e) => Err(e),
        Ok(fill) => if fill == 0 {
            Ok(no_fill_answer(call))
        } else if !impact_fits(m, fill, call.oracle_price_e6 as int) {
            Err(MatcherError::ArithmeticOverflow)
        } else {
            fill_answer(m, call, fill, impact_bps(m, fill, call.oracle_price_e6 as int))
        },
    }
}

/// What the provider answers: price, size, flags.
pub open spec fn execution(m: CtxModel, call: MatcherCall) -> Result<
    (u64, i128, u32),
    MatcherError,
> {
    match context::kind_of(m.kind) {
        Err(e) => Err(e),
        Ok(MatcherKind::Passive) => passive_execution(m, call),
        Ok(MatcherKind::Vamm) => vamm_execution(m, call),
    }
}

/// Whether the size to be filled fits in an `i128`.
pub open spec fn size_fits(m: CtxModel, call: MatcherCall) -> bool {
    math::lesser(math::magnitude(call.req_size as int) as int, m.max_fill_abs as int) <= i128::MAX
}

/// Whether a seller is left with a price that is not negative.
pub open spec fn discount_fits(m: CtxModel, call: MatcherCall, impact: int) -> bool {
    call.req_size >= 0 || total_bps(m, false, impact) <= 10_000
}

/// What passive pricing needs of the state and the request.
pub open spec fn passive_executable(m: CtxModel, call: MatcherCall) -> bool {
    &&& size_fits(m, call)
    &&& fill_size(m, call) matches Ok(fill) ==> fill != 0 ==> discount_fits(m, call, 0)
}

/// What vAMM pricing needs of the state and the request.
pub open spec fn vamm_executable(m: CtxModel, call: MatcherCall) -> bool {
    &&& size_fits(m, call)
    &&& fill_size(m, call) matches Ok(fill) ==> fill != 0 && impact_fits(
        m,
        fill,
        call.oracle_price_e6 as int,
    ) ==> discount_fits(m, call, impact_bps(m, fill, call.oracle_price_e6 as int))
}

/// What pricing needs of the state and the request. A valid state gives all of it.
pub open spec fn executable(m: CtxModel, call: MatcherCall) -> bool {
    match context::kind_of(m.kind) {
        Err(_) => true,
        Ok(MatcherKind::Passive) => passive_executable(m, call),
        Ok(MatcherKind::Vamm) => vamm_executable(m, call),
    }
}

/// Spread added for inventory.
pub fn compute_skew_extra_bps(ctx: &MatcherCtx, is_buy: bool) -> (r: u128)
    ensures
        r == skew_extra_bps(ctx@, is_buy),
{
    if ctx.skew_spread_mult_bps == 0 {
        return 0;
    }
    let inv: i128 = ctx.inventory_base;
    let worsens: bool = if is_buy {
        inv < 0
    } else {
        inv > 0
    };
    if !worsens {
        return 0;
    }
    let inv_abs: u128 = math::unsigned_abs(inv);
    let mult: u128 = ctx.skew_spread_mult_bps as u128;
    let extra: u128 = math::saturating_mul(inv_abs, mult) / BPS_DENOM;
    math::min_u128(extra, MAX_SKEW_EXTRA_BPS)
}

/// The insurance fee that a fill accrues, and the fraction it leaves over.
pub fn compute_insurance_fee(ctx: &MatcherCtx, exec_size: i128, exec_price: u64) -> (r: (u64, u64))
    ensures
        r.0 == insurance_fee(ctx@, exec_size as int, exec_price as int),
        r.1 == insurance_remainder(ctx@, exec_size as int, exec_price as int),
{
    let abs_size: u128 = math::unsigned_abs(exec_size);
    let value: u128 = math::saturating_mul(abs_size, exec_price as u128);
    let fee_part: u128 = math::saturating_mul(value, ctx.trading_fee_bps as u128);
    let insurance_part: u128 = math::saturating_mul(fee_part, ctx.fee_to_insurance_bps as u128);
    let numerator: u128 = insurance_part.saturating_add(ctx.insurance_fee_remainder_e6 as u128);
    proof {
        lemma_saturating_product(abs_size * exec_price, ctx.trading_fee_bps as int);
        lemma_saturating_product(
            abs_size * exec_price * ctx.trading_fee_bps,
            ctx.fee_to_insurance_bps as int,
        );
    }
    let fee: u128 = numerator / INSURANCE_FEE_DENOM;
    let remainder: u64 = (numerator % INSURANCE_FEE_DENOM) as u64;
    let accrued: u128 = math::min_u128(fee, u64::MAX as u128);
    (accrued as u64, remainder)
}

/// Cutting a product off before the next factor gives what cutting it off after
/// gives.
proof fn lemma_saturating_product(a: int, b: int)
    requires
        a >= 0,
        b >= 0,
    ensures
        math::lesser(math::lesser(a, u128::MAX as int) * b, u128::MAX as int) == math::lesser(
            a * b,
            u128::MAX as int,
        ),
        a * b >= 0,
{
    let top = u128::MAX as int;
    if a > top {
        if b == 0 {
            assert(a * b == 0 && top * b == 0) by (nonlinear_arith)
                requires
                    b == 0,
            ;
        } else {
            assert(a * b >= top && top * b >= top) by (nonlinear_arith)
                requires
                    a > top,
                    top >= 0,
                    b >= 1,
            ;
        }
    } else {
        assert(a * b >= 0) by (nonlinear_arith)
            requires
                a >= 0,
                b >= 0,
        ;
    }
}

/// How much of `fill_abs` the inventory bound lets through.
pub fn check_inventory_limit(ctx: &MatcherCtx, fill_abs: u128, is_buy: bool) -> (r: Result<
    u128,
    MatcherError,
>)
    requires
        ctx.max_inventory_abs == 0 || fill_abs <= i128::MAX,
    ensures
        r is Ok <==> inventory_fill(ctx@, fill_abs as int, is_buy) is Ok,
        r matches Ok(fill) ==> inventory_fill(ctx@, fill_abs as int, is_buy)->Ok_0 == fill,
        r matches Err(e) ==> inventory_fill(ctx@, fill_abs as int, is_buy) == Err::<
            int,
            MatcherError,
        >(e),
{
    if ctx.max_inventory_abs == 0 {
        return Ok(fill_abs);
    }
    let current_inv: i128 = ctx.inventory_base;
    let max_inv: i128 = ctx.max_inventory_abs as i128;
    let inv_delta: i128 = if is_buy {
        -(fill_abs as i128)
    } else {
        fill_abs as i128
    };
    let new_inv: i128 = match current_inv.checked_add(inv_delta) {
        Some(v) => v,
        None => return Err(MatcherError::ArithmeticOverflow),
    };
    if math::unsigned_abs(new_inv) <= ctx.max_inventory_abs {
        return Ok(fill_abs);
    }
    if is_buy {
        if current_inv <= -max_inv {
            return Ok(0);
        }
        let room: i128 = match current_inv.checked_add(max_inv) {
            Some(v) => v,
            None => return Err(MatcherError::ArithmeticOverflow),
        };
        Ok(math::min_u128(fill_abs, math::unsigned_abs(room)))
    } else {
        if current_inv >= max_inv {
            return Ok(0);
        }
        let room: i128 = match max_inv.checked_sub(current_inv) {
            Some(v) => v,
            None => return Err(MatcherError::ArithmeticOverflow),
        };
        Ok(math::min_u128(fill_abs, math::unsigned_abs(room)))
    }
}

/// How much of a request is filled.
fn compute_fill(ctx: &MatcherCtx, call: &MatcherCall) -> (r: Result<u128, MatcherError>)
    requires
        size_fits(ctx@, *call),
    ensures
        r is Ok <==> fill_size(ctx@, *call) is Ok,
        r matches Ok(fill) ==> fill_size(ctx@, *call)->Ok_0 == fill && fill <= i128::MAX,
        r matches Err(e) ==> fill_size(ctx@, *call) == Err::<int, MatcherError>(e),
{
    let req_abs: u128 = math::unsigned_abs(call.req_size);
    let wanted: u128 = math::min_u128(req_abs, ctx.max_fill_abs);
    check_inventory_limit(ctx, wanted, call.req_size > 0)
}

/// The oracle price moved by `total` basis points against the user.
fn compute_price(oracle_price_e6: u64, total: u128, is_buy: bool) -> (r: Result<u64, MatcherError>)
    requires
        total <= u32::MAX,
        is_buy || total <= 10_000,
    ensures
        0 < price_at(oracle_price_e6 as int, total as int, is_buy) <= u64::MAX ==> r == Ok::<
            u64,
            MatcherError,
        >(price_at(oracle_price_e6 as int, total as int, is_buy) as u64),
        !(0 < price_at(oracle_price_e6 as int, total as int, is_buy) <= u64::MAX) ==> r == Err::<
            u64,
            MatcherError,
        >(MatcherError::ArithmeticOverflow),
{
    let oracle: u128 = oracle_price_e6 as u128;
    proof {
        assert(0 <= oracle * (10_000 + total) <= u64::MAX * (10_000 + u32::MAX)) by (nonlinear_arith)
            requires
                0 <= oracle <= u64::MAX,
                0 <= total <= u32::MAX,
        ;
        if total <= 10_000 {
            assert(0 <= oracle * (10_000 - total) <= u64::MAX * 10_000) by (nonlinear_arith)
                requires
                    0 <= oracle <= u64::MAX,
                    0 <= total <= 10_000,
            ;
        }
    }
    let price: u128 = if is_buy {
        let num: u128 = match oracle.checked_mul(BPS_DENOM + total) {
            Some(v) => v,
            None => return Err(MatcherError::ArithmeticOverflow),
        };
        let rounded: u128 = match num.checked_add(BPS_DENOM - 1) {
            Some(v) => v,
            None => return Err(MatcherError::ArithmeticOverflow),
        };
        rounded / BPS_DENOM
    } else {
        let num: u128 = match oracle.checked_mul(BPS_DENOM - total) {
            Some(v) => v,
            None => return Err(MatcherError::ArithmeticOverflow),
        };
        num / BPS_DENOM
    };
    if price == 0 || price > u64::MAX as u128 {
        return Err(MatcherError::ArithmeticOverflow);
    }
    Ok(price as u64)
}

/// What a passive provider answers: price, size, flags.
pub fn compute_passive_execution(ctx: &MatcherCtx, call: &MatcherCall) -> (r: Result<
    (u64, i128, u32),
    MatcherError,
>)
    requires
        passive_executable(ctx@, *call),
    ensures
        r == passive_execution(ctx@, *call),
{
    let is_buy: bool = call.req_size > 0;
    let fill_abs: u128 = compute_fill(ctx, call)?;
    if fill_abs == 0 {
        assert(1u32 | 2u32 == 3u32) by (bit_vector);
        return Ok((call.oracle_price_e6, 0, FLAG_VALID | FLAG_PARTIAL_OK));
    }
    let exec_size: i128 = if is_buy {
        fill_abs as i128
    } else {
        -(fill_abs as i128)
    };
    let base: u128 = ctx.base_spread_bps as u128;
    let fee: u128 = ctx.trading_fee_bps as u128;
    let skew_extra: u128 = compute_skew_extra_bps(ctx, is_buy);
    let max_total: u128 = ctx.max_total_bps as u128;
    let total: u128 = math::min_u128(max_total, base + fee + skew_extra);
    let exec_price: u64 = compute_price(call.oracle_price_e6, total, is_buy)?;
    Ok((exec_price, exec_size, FLAG_VALID))
}

/// What a vAMM provider answers: price, size, flags.
pub fn compute_vamm_execution(ctx: &MatcherCtx, call: &MatcherCall) -> (r: Result<
    (u64, i128, u32),
    MatcherError,
>)
    requires
        vamm_executable(ctx@, *call),
    ensures
        r == vamm_execution(ctx@, *call),
{
    let is_buy: bool = call.req_size > 0;
    let fill_abs: u128 = compute_fill(ctx, call)?;
    if fill_abs == 0 {
        assert(1u32 | 2u32 == 3u32) by (bit_vector);
        return Ok((call.oracle_price_e6, 0, FLAG_VALID | FLAG_PARTIAL_OK));
    }
    let exec_size: i128 = if is_buy {
        fill_abs as i128
    } else {
        -(fill_abs as i128)
    };
    let oracle: u128 = call.oracle_price_e6 as u128;
    let value: u128 = match fill_abs.checked_mul(oracle) {
        Some(v) => v,
        None => return Err(MatcherError::ArithmeticOverflow),
    };
    let abs_notional_e6: u128 = value / 1_000_000;
    let impact_k: u128 = ctx.impact_k_bps as u128;
    let impact: u128 = if ctx.liquidity_notional_e6 > 0 {
        let num: u128 = match abs_notional_e6.checked_mul(impact_k) {
            Some(v) => v,
            None => return Err(MatcherError::ArithmeticOverflow),
        };
        num / ctx.liquidity_notional_e6
    } else {
        0
    };
    let base: u128 = ctx.base_spread_bps as u128;
    let fee: u128 = ctx.trading_fee_bps as u128;
    let skew_extra: u128 = compute_skew_extra_bps(ctx, is_buy);
    let max_total: u128 = ctx.max_total_bps as u128;
    let max_impact: u128 = max_total.saturating_sub(base).saturating_sub(fee).saturating_sub(
        skew_extra,
    );
    let clamped_impact: u128 = math::min_u128(impact, max_impact);
    let total: u128 = math::min_u128(max_total, base + fee + skew_extra + clamped_impact);
    let exec_price: u64 = compute_price(call.oracle_price_e6, total, is_buy)?;
    Ok((exec_price, exec_size, FLAG_VALID))
}

/// What the provider answers: price, size, flags.
pub fn compute_execution(ctx: &MatcherCtx, call: &MatcherCall) -> (r: Result<
    (u64, i128, u32),
    MatcherError,
>)
    requires
        executable(ctx@, *call),
    ensures
        r == execution(ctx@, *call),
{
    match ctx.get_kind()? {
        MatcherKind::Passive => compute_passive_execution(ctx, call),
        MatcherKind::Vamm => compute_vamm_execution(ctx, call),
    }
}

} // verus!
