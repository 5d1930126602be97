//! One fill: what is answered and what it does to the state.
use vstd::prelude::*;

use crate::abi::{MatcherCall, MatcherReturn, MATCHER_ABI_VERSION};
use crate::context::{CtxModel, MatcherCtx};
use crate::error::MatcherError;
use crate::math;
use crate::pricing;

verus! {

/// The state with a fill booked: the position, the last prices and, where part of
/// the fee goes to insurance, what was accrued.
pub open spec fn settled(m: CtxModel, oracle: u64, price: u64, size: i128) -> Result<
    CtxModel,
    MatcherError,
> {
    let inventory = m.inventory_base - size;
    let accrued = m.insurance_accrued_e6 + pricing::insurance_fee(m, size as int, price as int);
    let filled = CtxModel {
        inventory_base: inventory as i128,
        last_oracle_price_e6: oracle,
        last_exec_price_e6: price,
        ..m
    };
    if size == 0 {
        Ok(m)
    } else if !math::fits_i128(inventory) {
        Err(MatcherError::ArithmeticOverflow)
    } else if m.fee_to_insurance_bps == 0 {
        Ok(filled)
    } else if accrued > u64::MAX {
        Err(MatcherError::ArithmeticOverflow)
    } else {
        Ok(
            CtxModel {
                insurance_accrued_e6: accrued as u64,
                insurance_fee_remainder_e6: pricing::insurance_remainder(
                    m,
                    size as int,
                    price as int,
                ) as u64,
                ..filled
            },
        )
    }
}

/// The record that answers `call`.
pub open spec fn answer(call: MatcherCall, price: u64, size: i128, flags: u32) -> MatcherReturn {
    MatcherReturn {
        abi_version: MATCHER_ABI_VERSION,
        flags,
        exec_price_e6: price,
        exec_size: size,
        req_id: call.req_id,
        lp_account_id: call.lp_account_id,
        oracle_price_e6: call.oracle_price_e6,
        asset_index: call.asset_index as u64,
    }
}

/// What one call does: the state after it and the record that answers it.
pub open spec fn step(m: CtxModel, call: MatcherCall) -> Result<
    (CtxModel, MatcherReturn),
    MatcherError,
> {
    match pricing::execution(m, call) {
        Err(e) => Err(e),
        Ok((price, size, flags)) => match settled(m, call.oracle_price_e6, price, size) {
            Err(e) => Err(e),
            Ok(after) => Ok((after, answer(call, price, size, flags))),
        },
    }
}

/// The parts of the state that only the provider chooses.
pub open spec fn same_parameters(a: CtxModel, b: CtxModel) -> bool {
    &&& a.magic == b.magic
    &&& a.version == b.version
    &&& a.kind == b.kind
    &&& a.pad0 == b.pad0
    &&& a.lp_pda == b.lp_pda
    &&& a.trading_fee_bps == b.trading_fee_bps
    &&& a.base_spread_bps == b.base_spread_bps
    &&& a.max_total_bps == b.max_total_bps
    &&& a.impact_k_bps == b.impact_k_bps
    &&& a.liquidity_notional_e6 == b.liquidity_notional_e6
    &&& a.max_fill_abs == b.max_fill_abs
    &&& a.max_inventory_abs == b.max_inventory_abs
    &&& a.fee_to_insurance_bps == b.fee_to_insurance_bps
    &&& a.skew_spread_mult_bps == b.skew_spread_mult_bps
    &&& a.new_pad == b.new_pad
    &&& a.lp_account_id == b.lp_account_id
    &&& a.reserved == b.reserved
}

/// A fill changes no parameter, so a valid state stays valid.
pub proof fn lemma_step_keeps_parameters(m: CtxModel, call: MatcherCall)
    ensures
        step(m, call) matches Ok((after, _)) ==> {
            &&& same_parameters(m, after)
            &&& after.valid() == m.valid()
        },
{
}

/// A valid state can price every request.
pub proof fn lemma_valid_is_executable(m: CtxModel, call: MatcherCall)
    requires
        m.valid(),
    ensures
        pricing::executable(m, call),
{
}

/// Books a fill.
fn settle(ctx: &MatcherCtx, oracle_price_e6: u64, exec_price: u64, exec_size: i128) -> (r: Result<
    MatcherCtx,
    MatcherError,
>)
    ensures
        r is Ok <==> settled(ctx@, oracle_price_e6, exec_price, exec_size) is Ok,
        r matches Ok(after) ==> after@ == settled(
            ctx@,
            oracle_price_e6,
            exec_price,
            exec_size,
        )->Ok_0,
        r matches Err(e) ==> settled(ctx@, oracle_price_e6, exec_price, exec_size) == Err::<
            CtxModel,
            MatcherError,
        >(e),
{
    let mut after: MatcherCtx = *ctx;
    if exec_size != 0 {
        after.inventory_base = match ctx.inventory_base.checked_sub(exec_size) {
            Some(v) => v,
            None => return Err(MatcherError::ArithmeticOverflow),
        };
        after.last_oracle_price_e6 = oracle_price_e6;
        after.last_exec_price_e6 = exec_price;
        if ctx.fee_to_insurance_bps > 0 {
            let (fee, remainder): (u64, u64) = pricing::compute_insurance_fee(
                ctx,
                exec_size,
                exec_price,
            );
            after.insurance_accrued_e6 = match ctx.insurance_accrued_e6.checked_add(fee) {
                Some(v) => v,
                None => return Err(MatcherError::ArithmeticOverflow),
            };
            after.insurance_fee_remainder_e6 = remainder;
        }
    }
    Ok(after)
}

/// Prices a call, books the fill and answers.
pub(crate) fn fill(ctx: &MatcherCtx, call: &MatcherCall) -> (r: Result<
    (MatcherCtx, MatcherReturn),
    MatcherError,
>)
    requires
        pricing::executable(ctx@, *call),
    ensures
        r is Ok <==> step(ctx@, *call) is Ok,
        r matches Ok((after, ret)) ==> step(ctx@, *call) == Ok::<
            (CtxModel, MatcherReturn),
            MatcherError,
        >((after@, ret)),
        r matches Err(e) ==> step(ctx@, *call) == Err::<(CtxModel, MatcherReturn), MatcherError>(e),
{
    let (exec_price, exec_size, flags): (u64, i128, u32) = pricing::compute_execution(ctx, call)?;
    let after: MatcherCtx = settle(ctx, call.oracle_price_e6, exec_price, exec_size)?;
    let ret: MatcherReturn = MatcherReturn {
        abi_version: MATCHER_ABI_VERSION,
        flags,
        exec_price_e6: exec_price,
        exec_size,
        req_id: call.req_id,
        lp_account_id: call.lp_account_id,
        oracle_price_e6: call.oracle_price_e6,
        asset_index: call.asset_index as u64,
    };
    Ok((after, ret))
}

} // verus!
