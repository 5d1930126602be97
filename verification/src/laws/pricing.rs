//! What holds of every price, every size and every fee.
use vstd::prelude::*;

use crate::abi::{MatcherCall, ORACLE_PRICE_E6_MAX};
use crate::context;
use crate::context::CtxModel;
use crate::error::MatcherError;
use crate::math;
use crate::pricing;

verus! {

/// The inventory bound never lets more through than was asked for, and never less
/// than nothing.
pub proof fn law_fill_at_most_requested(m: CtxModel, fill: int, is_buy: bool)
    requires
        0 <= fill,
    ensures
        pricing::inventory_fill(m, fill, is_buy) matches Ok(allowed) ==> 0 <= allowed <= fill,
{
}

/// A position within its bound stays within it, whatever is filled. The fill is
/// cut for that; it is refused only where the uncut position would not fit in an
/// `i128`.
pub proof fn law_inventory_bound_kept(m: CtxModel, fill: int, is_buy: bool)
    requires
        0 < m.max_inventory_abs,
        math::magnitude(m.inventory_base as int) <= m.max_inventory_abs,
        0 <= fill <= i128::MAX,
    ensures
        match pricing::inventory_fill(m, fill, is_buy) {
            Ok(allowed) => math::magnitude(pricing::inventory_after(m, allowed, is_buy))
                <= m.max_inventory_abs,
            Err(e) => e == MatcherError::ArithmeticOverflow && !math::fits_i128(
                pricing::inventory_after(m, fill, is_buy),
            ),
        },
{
}

/// An answer fills on the side that was asked for, no more than was asked for and
/// no more than one fill may take.
pub proof fn law_answered_size(m: CtxModel, call: MatcherCall)
    requires
        pricing::executable(m, call),
    ensures
        pricing::execution(m, call) matches Ok((_, size, _)) ==> {
            &&& size > 0 ==> call.req_size > 0
            &&& size < 0 ==> call.req_size < 0
            &&& math::magnitude(size as int) <= math::magnitude(call.req_size as int)
            &&& math::magnitude(size as int) <= m.max_fill_abs
        },
{
}

/// A provider that fills nothing, and a request for nothing, get the oracle price
/// and a size of zero. (A position so far beyond its bound that the way back does not
/// fit in an `i128` is an error instead.)
pub proof fn law_nothing_filled(m: CtxModel, call: MatcherCall)
    requires
        context::kind_of(m.kind) is Ok,
        m.max_fill_abs == 0 || call.req_size == 0,
        m.max_inventory_abs == 0 || math::magnitude(m.inventory_base as int) <= m.max_inventory_abs
            || math::fits_i128(pricing::headroom(m, call.req_size > 0)),
    ensures
        pricing::execution(m, call) == Ok::<(u64, i128, u32), MatcherError>(
            pricing::no_fill_answer(call),
        ),
{
}

/// Rounding up and down around a multiple of the oracle price.
proof fn lemma_price_bounds(oracle: int, total: int)
    requires
        0 <= oracle,
        0 <= total,
    ensures
        pricing::price_at(oracle, total, true) >= oracle,
        pricing::price_at(oracle, total, false) <= oracle,
        (pricing::price_at(oracle, total, true) - 1) * 10_000 < oracle * (10_000 + total)
            <= pricing::price_at(oracle, total, true) * 10_000,
        pricing::price_at(oracle, total, false) * 10_000 <= oracle * (10_000 - total) < (
        pricing::price_at(oracle, total, false) + 1) * 10_000,
{
    assert(oracle * (10_000 + total) == oracle * 10_000 + oracle * total) by (nonlinear_arith);
    assert(oracle * (10_000 - total) == oracle * 10_000 - oracle * total) by (nonlinear_arith);
    assert(oracle * total >= 0) by (nonlinear_arith)
        requires
            oracle >= 0,
            total >= 0,
    ;
}

/// Users never pay less than the oracle price nor receive more, and each price is
/// off the exact one by less than a unit, to the provider's side.
pub proof fn law_price_favours_provider(oracle: u64, total: int)
    requires
        0 <= total,
    ensures
        pricing::price_at(oracle as int, total, true) >= oracle,
        pricing::price_at(oracle as int, total, false) <= oracle,
        (pricing::price_at(oracle as int, total, true) - 1) * 10_000 < oracle * (10_000 + total)
            <= pricing::price_at(oracle as int, total, true) * 10_000,
        pricing::price_at(oracle as int, total, false) * 10_000 <= oracle * (10_000 - total) < (
        pricing::price_at(oracle as int, total, false) + 1) * 10_000,
{
    lemma_price_bounds(oracle as int, total);
}

/// Answered prices: a buyer pays the oracle price or more, a seller receives it or
/// less, and where nothing is filled the oracle price is named.
pub proof fn law_answered_price(m: CtxModel, call: MatcherCall)
    requires
        pricing::executable(m, call),
    ensures
        pricing::execution(m, call) matches Ok((price, size, _)) ==> {
            &&& size > 0 ==> price >= call.oracle_price_e6
            &&& size < 0 ==> price <= call.oracle_price_e6
            &&& size == 0 ==> price == call.oracle_price_e6
        },
{
    let oracle = call.oracle_price_e6 as int;
    let is_buy = call.req_size > 0;
    lemma_total_range(m, is_buy, 0);
    lemma_price_bounds(oracle, pricing::total_bps(m, is_buy, 0));
    if let Ok(fill) = pricing::fill_size(m, call) {
        lemma_impact_nonnegative(m, fill, oracle);
        let impact = pricing::impact_bps(m, fill, oracle);
        lemma_total_range(m, is_buy, impact);
        lemma_price_bounds(oracle, pricing::total_bps(m, is_buy, impact));
    }
}

/// Skew, and the total with it, are not negative.
proof fn lemma_total_range(m: CtxModel, is_buy: bool, impact: int)
    requires
        0 <= impact,
    ensures
        0 <= pricing::skew_extra_bps(m, is_buy) <= 5000,
        0 <= pricing::total_bps(m, is_buy, impact) <= m.max_total_bps,
{
    assert(math::magnitude(m.inventory_base as int) * m.skew_spread_mult_bps >= 0)
        by (nonlinear_arith);
}

/// Impact is not negative.
proof fn lemma_impact_nonnegative(m: CtxModel, fill: int, oracle: int)
    requires
        0 <= fill,
        0 <= oracle,
    ensures
        0 <= pricing::notional_e6(fill, oracle),
        0 <= pricing::impact_bps(m, fill, oracle),
{
    assert(fill * oracle >= 0) by (nonlinear_arith)
        requires
            fill >= 0,
            oracle >= 0,
    ;
    let notional = pricing::notional_e6(fill, oracle);
    assert(notional * m.impact_k_bps >= 0) by (nonlinear_arith)
        requires
            notional >= 0,
    ;
    if m.liquidity_notional_e6 > 0 {
        vstd::arithmetic::div_mod::lemma_div_pos_is_pos(
            notional * m.impact_k_bps,
            m.liquidity_notional_e6 as int,
        );
    }
}

/// Spread added for inventory is at most 5000 basis points, and only on the side
/// that moves the position further from zero.
pub proof fn law_skew_capped(m: CtxModel, is_buy: bool)
    ensures
        0 <= pricing::skew_extra_bps(m, is_buy) <= 5000,
        !pricing::worsens_inventory(m, is_buy) ==> pricing::skew_extra_bps(m, is_buy) == 0,
{
    lemma_total_range(m, is_buy, 0);
}

/// A larger position gets no smaller skew.
pub proof fn law_skew_grows_with_position(m: CtxModel, larger: CtxModel, is_buy: bool)
    requires
        larger.skew_spread_mult_bps == m.skew_spread_mult_bps,
        pricing::worsens_inventory(m, is_buy) ==> pricing::worsens_inventory(larger, is_buy),
        math::magnitude(m.inventory_base as int) <= math::magnitude(larger.inventory_base as int),
    ensures
        pricing::skew_extra_bps(m, is_buy) <= pricing::skew_extra_bps(larger, is_buy),
{
    lemma_total_range(larger, is_buy, 0);
    let a = math::magnitude(m.inventory_base as int);
    let b = math::magnitude(larger.inventory_base as int);
    let mult = m.skew_spread_mult_bps;
    assert(a * mult <= b * mult) by (nonlinear_arith)
        requires
            a <= b,
    ;
}

/// The total never exceeds what the provider configured.
pub proof fn law_total_capped(m: CtxModel, is_buy: bool, impact: int)
    requires
        0 <= impact,
    ensures
        0 <= pricing::total_bps(m, is_buy, impact) <= m.max_total_bps,
{
    lemma_total_range(m, is_buy, impact);
}

/// More basis points never give the user a better price.
pub proof fn law_price_follows_total(oracle: u64, less: int, more: int)
    requires
        less <= more,
    ensures
        pricing::price_at(oracle as int, less, true) <= pricing::price_at(
            oracle as int,
            more,
            true,
        ),
        pricing::price_at(oracle as int, more, false) <= pricing::price_at(
            oracle as int,
            less,
            false,
        ),
{
    assert(oracle * (10_000 + less) <= oracle * (10_000 + more)) by (nonlinear_arith)
        requires
            less <= more,
    ;
    assert(oracle * (10_000 - more) <= oracle * (10_000 - less)) by (nonlinear_arith)
        requires
            less <= more,
    ;
}

/// A buyer's price is positive for every oracle price that is. A seller's is
/// positive exactly where the exact price is a whole unit or more; with at most
/// 9000 basis points, that is so from an oracle price of ten on.
pub proof fn law_price_positive(oracle: u64, total: int)
    requires
        oracle > 0,
        0 <= total,
    ensures
        pricing::price_at(oracle as int, total, true) > 0,
        pricing::price_at(oracle as int, total, false) > 0 <==> oracle * (10_000 - total) >= 10_000,
        oracle >= 10 && total <= 9000 ==> pricing::price_at(oracle as int, total, false) > 0,
{
    lemma_price_bounds(oracle as int, total);
    if oracle >= 10 && total <= 9000 {
        assert(oracle * (10_000 - total) >= 10_000) by (nonlinear_arith)
            requires
                oracle >= 10,
                total <= 9000,
        ;
    }
}

/// Impact can be computed for every plausible oracle price and every fill of up to
/// 1e18 units.
pub proof fn law_impact_fits(m: CtxModel, fill: int, oracle: u64)
    requires
        0 <= fill <= 1_000_000_000_000_000_000,
        oracle <= ORACLE_PRICE_E6_MAX,
    ensures
        pricing::impact_fits(m, fill, oracle as int),
{
    assert(0 <= fill * oracle <= 1_000_000_000_000_000_000_000_000_000_000_000) by (nonlinear_arith)
        requires
            0 <= fill <= 1_000_000_000_000_000_000,
            0 <= oracle <= 1_000_000_000_000_000,
    ;
    let notional = pricing::notional_e6(fill, oracle as int);
    let k = m.impact_k_bps;
    assert(notional * k <= 1_000_000_000_000_000_000_000_000_000 * 0xffff_ffff) by (nonlinear_arith)
        requires
            0 <= notional <= 1_000_000_000_000_000_000_000_000_000,
            0 <= k <= 0xffff_ffff,
    ;
}

/// A larger fill has no smaller impact.
pub proof fn law_impact_grows_with_fill(m: CtxModel, less: int, more: int, oracle: u64)
    requires
        0 <= less <= more,
    ensures
        pricing::impact_bps(m, less, oracle as int) <= pricing::impact_bps(m, more, oracle as int),
{
    assert(less * oracle <= more * oracle) by (nonlinear_arith)
        requires
            less <= more,
            0 <= oracle,
    ;
    let a = pricing::notional_e6(less, oracle as int);
    let b = pricing::notional_e6(more, oracle as int);
    let k = m.impact_k_bps;
    assert(a * k <= b * k) by (nonlinear_arith)
        requires
            a <= b,
            0 <= k,
    ;
    if m.liquidity_notional_e6 > 0 {
        vstd::arithmetic::div_mod::lemma_div_is_ordered(
            a * k,
            b * k,
            m.liquidity_notional_e6 as int,
        );
    }
}

/// Against the same state, whoever asks for more never gets a better price.
pub proof fn law_larger_request_no_better_price(m: CtxModel, less: MatcherCall, more: MatcherCall)
    requires
        pricing::executable(m, less),
        pricing::executable(m, more),
        less.oracle_price_e6 == more.oracle_price_e6,
        less.req_size > 0 <==> more.req_size > 0,
        math::magnitude(less.req_size as int) <= math::magnitude(more.req_size as int),
    ensures
        match (pricing::execution(m, less), pricing::execution(m, more)) {
            (Ok((p1, s1, _)), Ok((p2, s2, _))) => {
                &&& s1 > 0 && s2 > 0 ==> p1 <= p2
                &&& s1 < 0 && s2 < 0 ==> p1 >= p2
            },
            _ => true,
        },
{
    let oracle = less.oracle_price_e6;
    let is_buy = less.req_size > 0;
    match (pricing::fill_size(m, less), pricing::fill_size(m, more)) {
        (Ok(f1), Ok(f2)) => {
            if f1 > 0 && f2 > 0 {
                assert(f1 <= f2);
                law_impact_grows_with_fill(m, f1, f2, oracle);
                law_price_follows_total(
                    oracle,
                    pricing::total_bps(m, is_buy, pricing::impact_bps(m, f1, oracle as int)),
                    pricing::total_bps(m, is_buy, pricing::impact_bps(m, f2, oracle as int)),
                );
            }
        },
        _ => {},
    }
}

/// Every state that passes validation has limits that fit in an `i128`, so sizes
/// and positions can be computed with.
pub proof fn law_limits_fit(m: CtxModel)
    ensures
        m.max_inventory_abs > i128::MAX || m.max_fill_abs > i128::MAX ==> m.validation() is Err,
{
}

/// Answered prices stay within the configured total of the oracle price.
pub proof fn law_answered_price_within_total(m: CtxModel, call: MatcherCall)
    requires
        pricing::executable(m, call),
    ensures
        pricing::execution(m, call) matches Ok((price, size, _)) ==> {
            &&& size > 0 ==> price <= pricing::price_at(
                call.oracle_price_e6 as int,
                m.max_total_bps as int,
                true,
            )
            &&& size < 0 ==> price >= pricing::price_at(
                call.oracle_price_e6 as int,
                m.max_total_bps as int,
                false,
            )
        },
{
    let oracle = call.oracle_price_e6;
    let is_buy = call.req_size > 0;
    let most = m.max_total_bps as int;
    lemma_total_range(m, is_buy, 0);
    law_price_follows_total(oracle, pricing::total_bps(m, is_buy, 0), most);
    if let Ok(fill) = pricing::fill_size(m, call) {
        lemma_impact_nonnegative(m, fill, oracle as int);
        let impact = pricing::impact_bps(m, fill, oracle as int);
        lemma_total_range(m, is_buy, impact);
        law_price_follows_total(oracle, pricing::total_bps(m, is_buy, impact), most);
    }
}

/// A bound of zero is no bound.
pub proof fn law_zero_bound_is_no_bound(m: CtxModel, fill: int, is_buy: bool)
    requires
        m.max_inventory_abs == 0,
    ensures
        pricing::inventory_fill(m, fill, is_buy) == Ok::<int, MatcherError>(fill),
{
}

} // verus!
