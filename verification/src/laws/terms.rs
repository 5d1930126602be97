//! The terms of a fill in plain arithmetic: how large it is, at what price, what it
//! does to the books, and when it is refused.
use vstd::prelude::*;

use crate::abi::{MatcherCall, MatcherReturn};
use crate::context::CtxModel;
use crate::error::MatcherError;
use crate::pricing;
use crate::settlement;

verus! {

/// A number without its sign.
pub open spec fn distance(v: int) -> int {
    if v < 0 {
        -v
    } else {
        v
    }
}

/// The smaller of two numbers.
pub open spec fn smaller(a: int, b: int) -> int {
    if b < a {
        b
    } else {
        a
    }
}

/// How far the position may still move to the side that a trade moves it to: down
/// for a buy, up for a sell.
pub open spec fn room(bound: int, inventory: int, is_buy: bool) -> int {
    if is_buy {
        inventory + bound
    } else {
        bound - inventory
    }
}

/// How much of `wanted` is filled: as much as there is room for, all of it where
/// there is no bound.
pub open spec fn due_fill(bound: int, inventory: int, wanted: int, is_buy: bool) -> int {
    if bound == 0 || wanted <= room(bound, inventory, is_buy) {
        wanted
    } else if room(bound, inventory, is_buy) < 0 {
        0
    } else {
        room(bound, inventory, is_buy)
    }
}

/// Whether the positions that the bound is held against fit in 128 bits: the one
/// after the whole of `wanted`, and the room where that one is out of bounds.
pub open spec fn clip_fits(bound: int, inventory: int, wanted: int, is_buy: bool) -> bool {
    let after = if is_buy {
        inventory - wanted
    } else {
        inventory + wanted
    };
    bound == 0 || (i128::MIN <= after <= i128::MAX && (-bound <= after <= bound || room(
        bound,
        inventory,
        is_buy,
    ) <= i128::MAX))
}

/// Spread for a position that a trade moves further from zero.
pub open spec fn skew(mult: int, inventory: int, is_buy: bool) -> int {
    if (is_buy && inventory < 0) || (!is_buy && inventory > 0) {
        smaller(distance(inventory) * mult / 10_000, 5_000)
    } else {
        0
    }
}

/// Spread for the value of a fill against the liquidity.
pub open spec fn impact(k: int, liquidity: int, oracle: int, fill: int) -> int {
    if liquidity == 0 {
        0
    } else {
        (fill * oracle / 1_000_000) * k / liquidity
    }
}

/// Whether the impact can be computed in 128 bits.
pub open spec fn impact_computable(k: int, liquidity: int, oracle: int, fill: int) -> bool {
    &&& fill * oracle <= u128::MAX
    &&& liquidity == 0 || (fill * oracle / 1_000_000) * k <= u128::MAX
}

/// Whether `price` is `total` basis points off the oracle price, to the user's
/// disadvantage and rounded that way to a whole unit.
pub open spec fn off_oracle(oracle: int, total: int, is_buy: bool, price: int) -> bool {
    if is_buy {
        10_000 * (price - 1) < oracle * (10_000 + total) <= 10_000 * price
    } else {
        10_000 * price <= oracle * (10_000 - total) < 10_000 * (price + 1)
    }
}

/// Whether that price is a whole number of units from 1 to the largest of 64 bits.
pub open spec fn price_fits(oracle: int, total: int, is_buy: bool) -> bool {
    if is_buy {
        0 < oracle * (10_000 + total) <= 10_000 * u64::MAX
    } else {
        10_000 <= oracle * (10_000 - total)
    }
}

/// Price, size and flags of an answer that fills `fill` with `total` basis points;
/// nothing filled is answered with the oracle price.
pub open spec fn answered(
    oracle: int,
    total: int,
    fill: int,
    is_buy: bool,
    price: u64,
    size: i128,
    flags: u32,
) -> bool {
    &&& size == (if is_buy {
        fill
    } else {
        -fill
    })
    &&& fill == 0 ==> price == oracle && flags == 3
    &&& fill != 0 ==> off_oracle(oracle, total, is_buy, price as int) && flags == 1
}

/// What a request asks for, up to the most that one fill may take.
pub open spec fn wanted(m: CtxModel, call: MatcherCall) -> int {
    smaller(distance(call.req_size as int), m.max_fill_abs as int)
}

/// How much of a request is filled.
pub open spec fn fill_of(m: CtxModel, call: MatcherCall) -> int {
    due_fill(
        m.max_inventory_abs as int,
        m.inventory_base as int,
        wanted(m, call),
        call.req_size > 0,
    )
}

/// Whether the bound can be held against the request in 128 bits.
pub open spec fn clip_of(m: CtxModel, call: MatcherCall) -> bool {
    clip_fits(
        m.max_inventory_abs as int,
        m.inventory_base as int,
        wanted(m, call),
        call.req_size > 0,
    )
}

/// Base spread, fee and skew, without impact.
pub open spec fn fixed_bps(m: CtxModel, is_buy: bool) -> int {
    m.base_spread_bps + m.trading_fee_bps + skew(
        m.skew_spread_mult_bps as int,
        m.inventory_base as int,
        is_buy,
    )
}

/// The inventory bound lets through what there is room for, and is an error where
/// its arithmetic does not fit.
pub proof fn law_bound_lets_through(m: CtxModel, fill: int, is_buy: bool)
    requires
        fill >= 0,
    ensures
        ({
            let bound = m.max_inventory_abs as int;
            let inventory = m.inventory_base as int;
            match pricing::inventory_fill(m, fill, is_buy) {
                Ok(allowed) => clip_fits(bound, inventory, fill, is_buy) && allowed == due_fill(
                    bound,
                    inventory,
                    fill,
                    is_buy,
                ),
                Err(e) => !clip_fits(bound, inventory, fill, is_buy) && e
                    == MatcherError::ArithmeticOverflow,
            }
        }),
{
}

/// Skew in plain arithmetic.
pub proof fn law_skew(m: CtxModel, is_buy: bool)
    ensures
        pricing::skew_extra_bps(m, is_buy) == skew(
            m.skew_spread_mult_bps as int,
            m.inventory_base as int,
            is_buy,
        ),
        0 <= skew(m.skew_spread_mult_bps as int, m.inventory_base as int, is_buy) <= 5_000,
{
    let d = distance(m.inventory_base as int);
    assert(d * m.skew_spread_mult_bps >= 0) by (nonlinear_arith)
        requires
            d >= 0,
    ;
}

/// Impact in plain arithmetic.
proof fn lemma_impact(m: CtxModel, fill: int, oracle: int)
    requires
        0 <= fill,
        0 <= oracle,
    ensures
        pricing::impact_bps(m, fill, oracle) == impact(
            m.impact_k_bps as int,
            m.liquidity_notional_e6 as int,
            oracle,
            fill,
        ),
        pricing::impact_fits(m, fill, oracle) == impact_computable(
            m.impact_k_bps as int,
            m.liquidity_notional_e6 as int,
            oracle,
            fill,
        ),
        0 <= impact(m.impact_k_bps as int, m.liquidity_notional_e6 as int, oracle, fill),
{
    let k = m.impact_k_bps as int;
    assert(fill * oracle >= 0) by (nonlinear_arith)
        requires
            fill >= 0,
            oracle >= 0,
    ;
    let value = fill * oracle / 1_000_000;
    assert(value * k >= 0) by (nonlinear_arith)
        requires
            value >= 0,
            k >= 0,
    ;
    if m.liquidity_notional_e6 > 0 {
        vstd::arithmetic::div_mod::lemma_div_pos_is_pos(value * k, m.liquidity_notional_e6 as int);
    }
}

/// A price is where it should be, and fits where it should.
proof fn lemma_price(oracle: u64, total: int, is_buy: bool)
    requires
        0 <= total,
    ensures
        off_oracle(oracle as int, total, is_buy, pricing::price_at(oracle as int, total, is_buy)),
        price_fits(oracle as int, total, is_buy) <==> 0 < pricing::price_at(
            oracle as int,
            total,
            is_buy,
        ) <= u64::MAX,
{
    crate::laws::pricing::law_price_favours_provider(oracle, total);
}

/// What a passive provider answers: the fill that there is room for, at the oracle
/// price less or plus spread, fee and skew, or an overflow.
pub proof fn law_passive_answer(m: CtxModel, call: MatcherCall)
    requires
        wanted(m, call) <= i128::MAX,
    ensures
        ({
            let is_buy = call.req_size > 0;
            let oracle = call.oracle_price_e6 as int;
            let fill = fill_of(m, call);
            let total = smaller(m.max_total_bps as int, fixed_bps(m, is_buy));
            let possible = clip_of(m, call) && (fill == 0 || price_fits(oracle, total, is_buy));
            match pricing::passive_execution(m, call) {
                Ok((price, size, flags)) => possible && answered(
                    oracle,
                    total,
                    fill,
                    is_buy,
                    price,
                    size,
                    flags,
                ),
                Err(e) => !possible && e == MatcherError::ArithmeticOverflow,
            }
        }),
{
    let is_buy = call.req_size > 0;
    law_bound_lets_through(m, wanted(m, call), is_buy);
    law_skew(m, is_buy);
    lemma_price(call.oracle_price_e6, pricing::total_bps(m, is_buy, 0), is_buy);
}

/// What a vAMM provider answers: as a passive one, with the impact of the fill added
/// to the spread.
pub proof fn law_vamm_answer(m: CtxModel, call: MatcherCall)
    requires
        wanted(m, call) <= i128::MAX,
    ensures
        ({
            let is_buy = call.req_size > 0;
            let oracle = call.oracle_price_e6 as int;
            let fill = fill_of(m, call);
            let k = m.impact_k_bps as int;
            let liquidity = m.liquidity_notional_e6 as int;
            let total = smaller(
                m.max_total_bps as int,
                fixed_bps(m, is_buy) + impact(k, liquidity, oracle, fill),
            );
            let possible = clip_of(m, call) && (fill == 0 || (impact_computable(
                k,
                liquidity,
                oracle,
                fill,
            ) && price_fits(oracle, total, is_buy)));
            match pricing::vamm_execution(m, call) {
                Ok((price, size, flags)) => possible && answered(
                    oracle,
                    total,
                    fill,
                    is_buy,
                    price,
                    size,
                    flags,
                ),
                Err(e) => !possible && e == MatcherError::ArithmeticOverflow,
            }
        }),
{
    let is_buy = call.req_size > 0;
    let oracle = call.oracle_price_e6 as int;
    let fill = fill_of(m, call);
    law_bound_lets_through(m, wanted(m, call), is_buy);
    law_skew(m, is_buy);
    lemma_impact(m, fill, oracle);
    lemma_price(
        call.oracle_price_e6,
        pricing::total_bps(m, is_buy, pricing::impact_bps(m, fill, oracle)),
        is_buy,
    );
}

/// The basis points that a provider's kind asks for a fill.
pub open spec fn total_of(m: CtxModel, oracle: int, fill: int, is_buy: bool) -> int {
    let extra = if m.kind == 1 {
        impact(m.impact_k_bps as int, m.liquidity_notional_e6 as int, oracle, fill)
    } else {
        0
    };
    smaller(m.max_total_bps as int, fixed_bps(m, is_buy) + extra)
}

/// Whether a request can be priced: the position, the impact and the price fit.
pub open spec fn priceable(m: CtxModel, call: MatcherCall) -> bool {
    let oracle = call.oracle_price_e6 as int;
    let fill = fill_of(m, call);
    &&& clip_of(m, call)
    &&& fill == 0 || {
        &&& m.kind == 1 ==> impact_computable(
            m.impact_k_bps as int,
            m.liquidity_notional_e6 as int,
            oracle,
            fill,
        )
        &&& price_fits(oracle, total_of(m, oracle, fill, call.req_size > 0), call.req_size > 0)
    }
}

/// What the provider answers, by its kind: 0 is passive, 1 is the vAMM.
pub proof fn law_answer(m: CtxModel, call: MatcherCall)
    requires
        wanted(m, call) <= i128::MAX,
    ensures
        match pricing::execution(m, call) {
            Ok((price, size, flags)) => m.kind <= 1 && priceable(m, call) && answered(
                call.oracle_price_e6 as int,
                total_of(
                    m,
                    call.oracle_price_e6 as int,
                    fill_of(m, call),
                    call.req_size > 0,
                ),
                fill_of(m, call),
                call.req_size > 0,
                price,
                size,
                flags,
            ),
            Err(e) => if m.kind <= 1 {
                !priceable(m, call) && e == MatcherError::ArithmeticOverflow
            } else {
                e == MatcherError::InvalidInstructionData
            },
        },
{
    law_passive_answer(m, call);
    law_vamm_answer(m, call);
}

/// Whether `size` is the right size for a request: on its side, no larger than it
/// nor than the cap, not past the bound, and as large as all that allows.
pub open spec fn rightly_sized(
    bound: int,
    cap: int,
    inventory: int,
    requested: int,
    size: int,
) -> bool {
    &&& requested >= 0 ==> 0 <= size <= requested && size <= cap
    &&& requested <= 0 ==> requested <= size <= 0 && -cap <= size
    &&& bound > 0 && size > 0 ==> inventory - size >= -bound
    &&& bound > 0 && size < 0 ==> inventory - size <= bound
    &&& 0 <= size < requested && size < cap ==> bound > 0 && inventory - size <= -bound
    &&& requested < size <= 0 && -cap < size ==> bound > 0 && inventory - size >= bound
}

/// The size that is answered is the right one.
pub proof fn law_answered_size_is_right(m: CtxModel, call: MatcherCall)
    requires
        wanted(m, call) <= i128::MAX,
    ensures
        pricing::execution(m, call) matches Ok((_, size, _)) ==> rightly_sized(
            m.max_inventory_abs as int,
            m.max_fill_abs as int,
            m.inventory_base as int,
            call.req_size as int,
            size as int,
        ),
{
    law_answer(m, call);
}

/// What a fill owes to insurance in 1e-14 of a unit, with what was carried over, as
/// far as 128 bits hold it.
pub open spec fn insurance_due(m: CtxModel, size: int, price: int) -> int {
    smaller(
        distance(size) * price * m.trading_fee_bps * m.fee_to_insurance_bps
            + m.insurance_fee_remainder_e6,
        u128::MAX as int,
    )
}

/// The fee that accrues is the whole units of what is owed, at most what 64 bits
/// hold; the fraction is carried on.
pub proof fn law_insurance_in_units(m: CtxModel, size: int, price: int)
    ensures
        pricing::insurance_fee(m, size, price) == smaller(
            insurance_due(m, size, price) / 100_000_000_000_000,
            u64::MAX as int,
        ),
        pricing::insurance_remainder(m, size, price) == insurance_due(m, size, price)
            % 100_000_000_000_000,
{
}

/// Whether a fill can be booked: the position and the accrued fee fit.
pub open spec fn bookable(m: CtxModel, size: int, price: int) -> bool {
    size == 0 || {
        &&& i128::MIN <= m.inventory_base - size <= i128::MAX
        &&& m.fee_to_insurance_bps == 0 || m.insurance_accrued_e6 + smaller(
            insurance_due(m, size, price) / 100_000_000_000_000,
            u64::MAX as int,
        ) <= u64::MAX
    }
}

/// Whether `after` is `m` with a fill booked.
pub open spec fn booked_right(
    m: CtxModel,
    after: CtxModel,
    oracle: int,
    size: int,
    price: int,
) -> bool {
    let insured = size != 0 && m.fee_to_insurance_bps > 0;
    &&& after.inventory_base == m.inventory_base - size
    &&& after.last_oracle_price_e6 == (if size != 0 {
        oracle
    } else {
        m.last_oracle_price_e6 as int
    })
    &&& after.last_exec_price_e6 == (if size != 0 {
        price
    } else {
        m.last_exec_price_e6 as int
    })
    &&& after.insurance_accrued_e6 == m.insurance_accrued_e6 + (if insured {
        smaller(insurance_due(m, size, price) / 100_000_000_000_000, u64::MAX as int)
    } else {
        0
    })
    &&& after.insurance_fee_remainder_e6 == (if insured {
        insurance_due(m, size, price) % 100_000_000_000_000
    } else {
        m.insurance_fee_remainder_e6 as int
    })
    &&& unchanged_parameters(m, after)
}

/// Whether everything that no fill touches is the same.
pub open spec fn unchanged_parameters(m: CtxModel, after: CtxModel) -> bool {
    &&& after.magic == m.magic
    &&& after.version == m.version
    &&& after.kind == m.kind
    &&& after.pad0 == m.pad0
    &&& after.lp_pda == m.lp_pda
    &&& after.trading_fee_bps == m.trading_fee_bps
    &&& after.base_spread_bps == m.base_spread_bps
    &&& after.max_total_bps == m.max_total_bps
    &&& after.impact_k_bps == m.impact_k_bps
    &&& after.liquidity_notional_e6 == m.liquidity_notional_e6
    &&& after.max_fill_abs == m.max_fill_abs
    &&& after.max_inventory_abs == m.max_inventory_abs
    &&& after.fee_to_insurance_bps == m.fee_to_insurance_bps
    &&& after.skew_spread_mult_bps == m.skew_spread_mult_bps
    &&& after.new_pad == m.new_pad
    &&& after.lp_account_id == m.lp_account_id
    &&& after.reserved == m.reserved
}

/// Booking a fill moves the position against it, notes the two prices and accrues
/// insurance, and nothing else; it is an overflow where the result does not fit.
pub proof fn law_booking(m: CtxModel, oracle: u64, price: u64, size: i128)
    ensures
        match settlement::settled(m, oracle, price, size) {
            Ok(after) => bookable(m, size as int, price as int) && booked_right(
                m,
                after,
                oracle as int,
                size as int,
                price as int,
            ),
            Err(e) => !bookable(m, size as int, price as int) && e
                == MatcherError::ArithmeticOverflow,
        },
{
    law_insurance_in_units(m, size as int, price as int);
    let a = distance(size as int);
    let p = price as int;
    let t = m.trading_fee_bps as int;
    let f = m.fee_to_insurance_bps as int;
    assert(a * p >= 0) by (nonlinear_arith)
        requires
            a >= 0,
            p >= 0,
    ;
    let value = a * p;
    assert(value * t >= 0) by (nonlinear_arith)
        requires
            value >= 0,
            t >= 0,
    ;
    let fee = value * t;
    assert(fee * f >= 0) by (nonlinear_arith)
        requires
            fee >= 0,
            f >= 0,
    ;
}

/// Whether `ret` answers `call` on the state `m`: the call's own numbers, the right
/// size, the right price, the right flags.
pub open spec fn answers(m: CtxModel, call: MatcherCall, ret: MatcherReturn) -> bool {
    &&& ret.abi_version == 3
    &&& ret.req_id == call.req_id
    &&& ret.lp_account_id == call.lp_account_id
    &&& ret.oracle_price_e6 == call.oracle_price_e6
    &&& ret.asset_index == call.asset_index
    &&& answered(
        call.oracle_price_e6 as int,
        total_of(m, call.oracle_price_e6 as int, fill_of(m, call), call.req_size > 0),
        fill_of(m, call),
        call.req_size > 0,
        ret.exec_price_e6,
        ret.exec_size,
        ret.flags,
    )
}

/// One call: the answer holds the provider's price, size and flags, and the state
/// after it has that very fill booked. It fails only where something does not fit.
pub proof fn law_call_is_priced_and_booked(m: CtxModel, call: MatcherCall)
    requires
        wanted(m, call) <= i128::MAX,
        m.kind <= 1,
    ensures
        match settlement::step(m, call) {
            Ok((after, ret)) => {
                &&& priceable(m, call)
                &&& answers(m, call, ret)
                &&& rightly_sized(
                    m.max_inventory_abs as int,
                    m.max_fill_abs as int,
                    m.inventory_base as int,
                    call.req_size as int,
                    ret.exec_size as int,
                )
                &&& bookable(m, ret.exec_size as int, ret.exec_price_e6 as int)
                &&& booked_right(
                    m,
                    after,
                    call.oracle_price_e6 as int,
                    ret.exec_size as int,
                    ret.exec_price_e6 as int,
                )
            },
            Err(e) => {
                &&& e == MatcherError::ArithmeticOverflow
                &&& priceable(m, call) ==> exists|ret: MatcherReturn|
                    #![trigger answers(m, call, ret)]
                    answers(m, call, ret) && !bookable(
                        m,
                        ret.exec_size as int,
                        ret.exec_price_e6 as int,
                    )
            },
        },
{
    law_answer(m, call);
    law_answered_size_is_right(m, call);
    if let Ok((price, size, flags)) = pricing::execution(m, call) {
        law_booking(m, call.oracle_price_e6, price, size);
        let ret = MatcherReturn {
            abi_version: 3,
            flags,
            exec_price_e6: price,
            exec_size: size,
            req_id: call.req_id,
            lp_account_id: call.lp_account_id,
            oracle_price_e6: call.oracle_price_e6,
            asset_index: call.asset_index as u64,
        };
        assert(answers(m, call, ret));
    }
}

} // verus!
