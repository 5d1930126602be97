//! Insurance fees: nothing is lost to rounding, however a trade is split.
use vstd::prelude::*;

use crate::context::CtxModel;
use crate::error::MatcherError;
use crate::math;
use crate::pricing;
use crate::pricing::INSURANCE_FEE_DENOM;
use crate::settlement;

verus! {

/// A fill as it is booked: oracle price, price, size.
pub struct Fill {
    pub oracle: u64,
    pub price: u64,
    pub size: i128,
}

/// The state after the fills were booked, one after the other.
pub open spec fn booked(m: CtxModel, fills: Seq<Fill>) -> Result<CtxModel, MatcherError>
    decreases fills.len(),
{
    if fills.len() == 0 {
        Ok(m)
    } else {
        match booked(m, fills.drop_last()) {
            Err(e) => Err(e),
            Ok(before) => settlement::settled(
                before,
                fills.last().oracle,
                fills.last().price,
                fills.last().size,
            ),
        }
    }
}

/// What the fills owe to insurance at the provider's rates, in 1e-14 of a unit.
pub open spec fn owed(m: CtxModel, fills: Seq<Fill>) -> int
    decreases fills.len(),
{
    if fills.len() == 0 {
        0
    } else {
        owed(m, fills.drop_last()) + pricing::insurance_exact(
            m,
            fills.last().size as int,
            fills.last().price as int,
        )
    }
}

/// All that was put aside for insurance, in 1e-14 of a unit.
pub open spec fn ledger(m: CtxModel) -> int {
    m.insurance_accrued_e6 * (INSURANCE_FEE_DENOM as int) + m.insurance_fee_remainder_e6
}

/// What a fill owes is not negative, and nothing for a size of zero or a share of
/// zero.
pub(crate) proof fn lemma_exact_range(m: CtxModel, size: int, price: int)
    requires
        0 <= price,
    ensures
        pricing::insurance_exact(m, size, price) >= 0,
        size == 0 || m.fee_to_insurance_bps == 0 ==> pricing::insurance_exact(m, size, price) == 0,
{
    let a = math::magnitude(size) as int;
    let t = m.trading_fee_bps as int;
    let f = m.fee_to_insurance_bps as int;
    assert(a * price >= 0) by (nonlinear_arith)
        requires
            a >= 0,
            price >= 0,
    ;
    let value = a * price;
    assert(value * t >= 0) by (nonlinear_arith)
        requires
            value >= 0,
            t >= 0,
    ;
    let fee = value * t;
    assert(fee * f >= 0) by (nonlinear_arith)
        requires
            fee >= 0,
            f >= 0,
    ;
    if size == 0 {
        assert(a * price == 0) by (nonlinear_arith)
            requires
                a == 0,
        ;
        assert(value * t == 0) by (nonlinear_arith)
            requires
                value == 0,
        ;
        assert(fee * f == 0) by (nonlinear_arith)
            requires
                fee == 0,
        ;
    }
    if f == 0 {
        assert(fee * f == 0) by (nonlinear_arith)
            requires
                f == 0,
        ;
    }
}

/// The fraction that a fill leaves over is less than a unit.
pub proof fn law_remainder_below_unit(m: CtxModel, size: int, price: int)
    requires
        0 <= price,
    ensures
        0 <= pricing::insurance_remainder(m, size, price) < INSURANCE_FEE_DENOM,
{
    lemma_exact_range(m, size, price);
}

/// The fee of one fill exceeds the trading fee that it is part of by at most one
/// unit: the fraction that was carried over.
pub proof fn law_fee_bounded_by_trading_fee(m: CtxModel, size: int, price: int)
    requires
        0 <= price,
        m.fee_to_insurance_bps <= 10_000,
        m.insurance_fee_remainder_e6 < INSURANCE_FEE_DENOM,
    ensures
        pricing::insurance_fee(m, size, price) <= math::lesser(
            math::magnitude(size) * price * m.trading_fee_bps,
            u128::MAX as int,
        ) / 10_000_000_000 + 1,
{
    lemma_exact_range(m, size, price);
    let value = math::magnitude(size) * price;
    assert(value >= 0) by (nonlinear_arith)
        requires
            value == math::magnitude(size) * price,
            price >= 0,
    ;
    let fee = value * m.trading_fee_bps;
    assert(fee >= 0) by (nonlinear_arith)
        requires
            fee == value * m.trading_fee_bps,
            value >= 0,
    ;
    let share = m.fee_to_insurance_bps as int;
    assert(fee * share <= fee * 10_000) by (nonlinear_arith)
        requires
            fee >= 0,
            share <= 10_000,
    ;
}

/// Whether the fee of a fill, with what was carried over, fits in 64 bits. A fee
/// that does not is cut, and less is put aside than is owed.
pub open spec fn fee_fits(m: CtxModel, fill: Fill) -> bool {
    (pricing::insurance_exact(m, fill.size as int, fill.price as int)
        + m.insurance_fee_remainder_e6) / (INSURANCE_FEE_DENOM as int) <= u64::MAX
}

/// Whether no fee is cut while the fills are booked.
pub open spec fn fees_fit(m: CtxModel, fills: Seq<Fill>) -> bool
    decreases fills.len(),
{
    fills.len() > 0 ==> {
        &&& fees_fit(m, fills.drop_last())
        &&& booked(m, fills.drop_last()) matches Ok(before) ==> fee_fits(before, fills.last())
    }
}

/// Booking a fill puts aside exactly what the fill owes: no fraction is lost.
pub proof fn law_fill_puts_aside_what_it_owes(m: CtxModel, fill: Fill)
    requires
        fee_fits(m, fill),
    ensures
        settlement::settled(m, fill.oracle, fill.price, fill.size) matches Ok(after) ==> {
            &&& ledger(after) == ledger(m) + pricing::insurance_exact(
                m,
                fill.size as int,
                fill.price as int,
            )
            &&& m.insurance_fee_remainder_e6 < INSURANCE_FEE_DENOM
                ==> after.insurance_fee_remainder_e6 < INSURANCE_FEE_DENOM
        },
{
    lemma_exact_range(m, fill.size as int, fill.price as int);
}

/// However many fills are booked, what is put aside is exactly what they owe
/// together.
pub proof fn law_fills_put_aside_what_they_owe(m: CtxModel, fills: Seq<Fill>)
    requires
        fees_fit(m, fills),
    ensures
        booked(m, fills) matches Ok(after) ==> {
            &&& ledger(after) == ledger(m) + owed(m, fills)
            &&& m.insurance_fee_remainder_e6 < INSURANCE_FEE_DENOM
                ==> after.insurance_fee_remainder_e6 < INSURANCE_FEE_DENOM
            &&& settlement::same_parameters(m, after)
        },
    decreases fills.len(),
{
    if fills.len() > 0 {
        let init = fills.drop_last();
        law_fills_put_aside_what_they_owe(m, init);
        if let Ok(before) = booked(m, init) {
            let last = fills.last();
            assert(pricing::insurance_exact(before, last.size as int, last.price as int)
                == pricing::insurance_exact(m, last.size as int, last.price as int));
            law_fill_puts_aside_what_it_owes(before, last);
        }
    }
}

/// However the same trade is split, the same fee accrues and the same fraction is
/// left: two ways of booking that owe the same put the same aside.
pub proof fn law_split_changes_nothing(m: CtxModel, one: Seq<Fill>, other: Seq<Fill>)
    requires
        m.insurance_fee_remainder_e6 < INSURANCE_FEE_DENOM,
        owed(m, one) == owed(m, other),
        fees_fit(m, one),
        fees_fit(m, other),
    ensures
        match (booked(m, one), booked(m, other)) {
            (Ok(a), Ok(b)) => {
                &&& a.insurance_accrued_e6 == b.insurance_accrued_e6
                &&& a.insurance_fee_remainder_e6 == b.insurance_fee_remainder_e6
            },
            _ => true,
        },
{
    law_fills_put_aside_what_they_owe(m, one);
    law_fills_put_aside_what_they_owe(m, other);
}

/// The sum of the sizes, without their signs.
pub open spec fn volume(fills: Seq<Fill>) -> int
    decreases fills.len(),
{
    if fills.len() == 0 {
        0
    } else {
        volume(fills.drop_last()) + math::magnitude(fills.last().size as int)
    }
}

/// Fills at one price owe what one fill of their whole volume owes.
pub proof fn law_owed_follows_volume(m: CtxModel, fills: Seq<Fill>, price: u64)
    requires
        forall|i: int| 0 <= i < fills.len() ==> (#[trigger] fills[i]).price == price,
    ensures
        volume(fills) >= 0,
        owed(m, fills) == pricing::insurance_exact(m, volume(fills), price as int),
    decreases fills.len(),
{
    if fills.len() == 0 {
        lemma_exact_range(m, 0, price as int);
    } else {
        let init = fills.drop_last();
        assert forall|i: int| 0 <= i < init.len() implies (#[trigger] init[i]).price == price by {
            assert(init[i] == fills[i]);
        }
        law_owed_follows_volume(m, init, price);
        assert(fills.last() == fills[fills.len() - 1]);
        let a = volume(init);
        let b = math::magnitude(fills.last().size as int) as int;
        let t = m.trading_fee_bps as int;
        let f = m.fee_to_insurance_bps as int;
        assert((a + b) * price * t * f == a * price * t * f + b * price * t * f)
            by (nonlinear_arith);
    }
}

} // verus!
