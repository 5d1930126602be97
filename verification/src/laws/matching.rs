//! What holds of quotes and of matches against them.
use vstd::prelude::*;

use crate::laws::terms;
use crate::math;
use crate::passive_lp_matcher;
use crate::passive_lp_matcher::{PassiveMatcherConfig, Quote, Reason};

verus! {

/// The bid is at most the oracle price and the ask at least; the bid is rounded
/// down and the ask up, each by less than a unit.
pub proof fn law_quote_brackets_oracle(cfg: PassiveMatcherConfig, oracle: u64)
    requires
        cfg.edge_bps <= 10_000,
    ensures
        passive_lp_matcher::quote(cfg, oracle) matches Some(q) ==> {
            &&& q.bid <= oracle <= q.ask
            &&& q.bid * 10_000 <= oracle * (10_000 - cfg.edge_bps) < (q.bid + 1) * 10_000
            &&& (q.ask - 1) * 10_000 < oracle * (10_000 + cfg.edge_bps) <= q.ask * 10_000
        },
{
    lemma_edge(cfg.edge_bps, oracle);
}

/// What the edge takes off and adds.
proof fn lemma_edge(edge: u16, oracle: u64)
    ensures
        oracle * (10_000 + edge) == oracle * 10_000 + oracle * edge,
        oracle * (10_000 - edge) == oracle * 10_000 - oracle * edge,
        edge <= 10_000 ==> 0 <= oracle * (10_000 - edge),
        0 <= oracle * edge,
        0 <= passive_lp_matcher::bid_price(edge, oracle as int) <= oracle
            <= passive_lp_matcher::ask_price(edge, oracle as int),
{
    assert(oracle * (10_000 + edge) == oracle * 10_000 + oracle * edge) by (nonlinear_arith);
    assert(oracle * (10_000 - edge) == oracle * 10_000 - oracle * edge) by (nonlinear_arith);
    assert(0 <= oracle * edge) by (nonlinear_arith);
    if edge <= 10_000 {
        assert(0 <= oracle * (10_000 - edge)) by (nonlinear_arith)
            requires
                edge <= 10_000,
        ;
    }
}

/// An edge beyond the whole price still leaves the oracle price between bid and
/// ask: the bid is then zero.
pub proof fn law_quote_with_any_edge(cfg: PassiveMatcherConfig, oracle: u64)
    ensures
        passive_lp_matcher::quote(cfg, oracle) matches Some(q) ==> {
            &&& q.bid <= oracle <= q.ask
            &&& cfg.edge_bps >= 10_000 ==> q.bid == 0
        },
{
    lemma_edge(cfg.edge_bps, oracle);
    if cfg.edge_bps == 10_000 {
        assert(oracle * (10_000 - cfg.edge_bps) == 0) by (nonlinear_arith)
            requires
                cfg.edge_bps == 10_000,
        ;
    }
}

/// With the usual 50 basis points: bid = floor(oracle * 9950 / 10000) and
/// ask = ceil(oracle * 10050 / 10000).
pub proof fn law_usual_quote(cfg: PassiveMatcherConfig, oracle: u64)
    requires
        cfg.edge_bps == 50,
    ensures
        passive_lp_matcher::quote(cfg, oracle) matches Some(q) ==> {
            &&& q.bid == oracle * 9_950 / 10_000
            &&& q.ask == math::ceil_div(oracle * 10_050, 10_000)
        },
        passive_lp_matcher::quote(cfg, oracle) is None <==> oracle == 0 || math::ceil_div(
            oracle * 10_050,
            10_000,
        ) > u64::MAX,
{
    lemma_edge(cfg.edge_bps, oracle);
}

/// A wider edge never lowers the ask nor raises the bid.
pub proof fn law_wider_edge_wider_quote(less: u16, more: u16, oracle: u64)
    requires
        less <= more,
    ensures
        passive_lp_matcher::bid_price(more, oracle as int) <= passive_lp_matcher::bid_price(
            less,
            oracle as int,
        ),
        passive_lp_matcher::ask_price(less, oracle as int) <= passive_lp_matcher::ask_price(
            more,
            oracle as int,
        ),
{
    lemma_edge(less, oracle);
    lemma_edge(more, oracle);
    assert(oracle * less <= oracle * more) by (nonlinear_arith)
        requires
            less <= more,
    ;
}

/// A fill goes the way the user asked, is no larger than asked for nor than one
/// fill may be, is at a price that the user's limit allows, leaves the position
/// within its bound, and pays size times price.
pub proof fn law_filled_match(
    cfg: PassiveMatcherConfig,
    inventory: i128,
    oracle: u64,
    req_size: i128,
    limit: Option<u64>,
)
    ensures
        ({
            let r = passive_lp_matcher::match_outcome(cfg, inventory, oracle, req_size, limit);
            let size = r.execution.size as int;
            let price = r.execution.price;
            r.reason == Reason::Filled ==> {
                &&& size != 0
                &&& (size > 0 <==> req_size > 0)
                &&& math::magnitude(size) <= math::magnitude(req_size as int)
                &&& math::magnitude(size) <= cfg.max_base_qty
                &&& math::magnitude(req_size as int) >= cfg.min_base_qty
                &&& math::fits_i128(inventory - size)
                &&& math::magnitude(inventory - size) <= math::magnitude(
                    cfg.max_abs_inventory as int,
                )
                &&& r.quote_delta_lp == size * price
                &&& size > 0 ==> price >= oracle
                &&& size < 0 ==> price <= oracle
                &&& limit matches Some(l) ==> {
                    &&& size > 0 ==> price <= l
                    &&& size < 0 ==> price >= l
                }
            }
        }),
{
    lemma_edge(cfg.edge_bps, oracle);
    if let Ok((price, fill)) = passive_lp_matcher::matched(cfg, inventory, oracle, req_size, limit) {
        assert((-fill) * price == -(fill * price)) by (nonlinear_arith);
        assert(0 <= fill * price) by (nonlinear_arith)
            requires
                0 <= fill,
                0 <= price,
        ;
    }
}

/// Without a fill there is no price, no size and no payment.
pub proof fn law_unfilled_match(
    cfg: PassiveMatcherConfig,
    inventory: i128,
    oracle: u64,
    req_size: i128,
    limit: Option<u64>,
)
    ensures
        ({
            let r = passive_lp_matcher::match_outcome(cfg, inventory, oracle, req_size, limit);
            r.reason != Reason::Filled ==> {
                &&& r.execution.price == 0
                &&& r.execution.size == 0
                &&& r.quote_delta_lp == 0
            }
        }),
{
}

/// A limit only ever refuses: where it does not, the match is the one without it.
pub proof fn law_limit_only_refuses(
    cfg: PassiveMatcherConfig,
    inventory: i128,
    oracle: u64,
    req_size: i128,
    limit: u64,
)
    ensures
        ({
            let with_limit = passive_lp_matcher::match_outcome(
                cfg,
                inventory,
                oracle,
                req_size,
                Some(limit),
            );
            let without = passive_lp_matcher::match_outcome(
                cfg,
                inventory,
                oracle,
                req_size,
                None,
            );
            with_limit == without || with_limit.reason == Reason::TakerLimitTooTight
        }),
{
}

/// The oracle price less the edge, times 10000; nothing is left beyond the whole.
pub open spec fn bid_times_10000(cfg: PassiveMatcherConfig, oracle: u64) -> int {
    if cfg.edge_bps <= 10_000 {
        oracle * (10_000 - cfg.edge_bps)
    } else {
        0
    }
}

/// The oracle price plus the edge, times 10000.
pub open spec fn ask_times_10000(cfg: PassiveMatcherConfig, oracle: u64) -> int {
    oracle * (10_000 + cfg.edge_bps)
}

/// There is a quote for every oracle price but zero whose ask fits in 64 bits: the
/// exact prices, the bid rounded down, the ask rounded up.
pub proof fn law_quote(cfg: PassiveMatcherConfig, oracle: u64)
    ensures
        passive_lp_matcher::quote(cfg, oracle) is Some <==> 0 < ask_times_10000(cfg, oracle)
            <= 10_000 * u64::MAX,
        passive_lp_matcher::quote(cfg, oracle) matches Some(q) ==> {
            &&& 10_000 * q.bid <= bid_times_10000(cfg, oracle) < 10_000 * (q.bid + 1)
            &&& 10_000 * (q.ask - 1) < ask_times_10000(cfg, oracle) <= 10_000 * q.ask
        },
{
    lemma_edge(cfg.edge_bps, oracle);
    assert(oracle == 0 ==> oracle * cfg.edge_bps == 0) by (nonlinear_arith);
}

/// The price that a buyer or a seller gets.
pub open spec fn price_for(q: Quote, is_buy: bool) -> int {
    if is_buy {
        q.ask as int
    } else {
        q.bid as int
    }
}

/// Whether a user's limit allows the exact price on its side.
pub open spec fn limit_allows(
    cfg: PassiveMatcherConfig,
    oracle: u64,
    is_buy: bool,
    limit: Option<u64>,
) -> bool {
    limit matches Some(l) ==> if is_buy {
        ask_times_10000(cfg, oracle) <= 10_000 * l
    } else {
        10_000 * l <= bid_times_10000(cfg, oracle)
    }
}

/// Every reason for no match, and every fill, in plain arithmetic. A request is
/// looked at for its size, the oracle price, the user's limit and the cap, in that
/// order. Then it is filled up to the bound on the position, unless the position is
/// at or past it, or would stay past the other one, or a number does not fit.
pub proof fn law_match(
    cfg: PassiveMatcherConfig,
    inventory: i128,
    oracle: u64,
    req_size: i128,
    limit: Option<u64>,
)
    ensures
        ({
            let r = passive_lp_matcher::match_outcome(cfg, inventory, oracle, req_size, limit);
            let is_buy = req_size > 0;
            let asked = terms::distance(req_size as int);
            let most = terms::smaller(asked, cfg.max_base_qty as int);
            let bound = terms::distance(cfg.max_abs_inventory as int);
            let room = terms::room(bound, inventory as int, is_buy);
            let after = if is_buy {
                inventory - most
            } else {
                inventory + most
            };
            let fill = terms::smaller(most, room);
            if asked == 0 || asked < cfg.min_base_qty {
                r.reason == Reason::ZeroQty
            } else if !(0 < ask_times_10000(cfg, oracle) <= 10_000 * u64::MAX) {
                r.reason == Reason::OracleZero
            } else if !limit_allows(cfg, oracle, is_buy, limit) {
                r.reason == Reason::TakerLimitTooTight
            } else if most == 0 {
                r.reason == Reason::LpMaxSize
            } else if !(i128::MIN <= after <= i128::MAX) {
                r.reason == Reason::MathOverflow
            } else if room <= 0 {
                r.reason == Reason::LpInventoryLimit
            } else if !(-bound <= after <= bound) && room > i128::MAX {
                r.reason == Reason::MathOverflow
            } else if room >= most && !(-bound <= after <= bound) {
                r.reason == Reason::LpInventoryLimit
            } else if r.reason == Reason::Filled {
                &&& r.execution.size == (if is_buy {
                    fill
                } else {
                    -fill
                })
                &&& fill * r.execution.price <= i128::MAX
                &&& r.quote_delta_lp == r.execution.size * r.execution.price
                &&& is_buy ==> 10_000 * (r.execution.price - 1) < ask_times_10000(cfg, oracle)
                    <= 10_000 * r.execution.price
                &&& !is_buy ==> 10_000 * r.execution.price <= bid_times_10000(cfg, oracle) < 10_000
                    * (r.execution.price + 1)
            } else {
                &&& r.reason == Reason::MathOverflow
                &&& exists|q: Quote| #[trigger]
                    price_for(q, is_buy) * fill > i128::MAX && {
                        &&& 10_000 * q.bid <= bid_times_10000(cfg, oracle) < 10_000 * (q.bid + 1)
                        &&& 10_000 * (q.ask - 1) < ask_times_10000(cfg, oracle) <= 10_000 * q.ask
                    }
            }
        }),
{
    law_quote(cfg, oracle);
    let is_buy = req_size > 0;
    if let Some(q) = passive_lp_matcher::quote(cfg, oracle) {
        let most = terms::smaller(terms::distance(req_size as int), cfg.max_base_qty as int);
        let bound = terms::distance(cfg.max_abs_inventory as int);
        let fill = terms::smaller(most, terms::room(bound, inventory as int, is_buy));
        let price = passive_lp_matcher::side_price(q, is_buy);
        assert(price == price_for(q, is_buy));
        assert(price_for(q, is_buy) * fill == fill * price) by (nonlinear_arith)
            requires
                price == price_for(q, is_buy),
        ;
        assert((-fill) * price == -(fill * price)) by (nonlinear_arith);
        assert(fill >= 0 ==> fill * price >= 0) by (nonlinear_arith)
            requires
                0 <= price,
        ;
    }
}

/// A fill is the largest that the limits allow: where it is less than was asked for
/// and less than the cap, the position ends exactly at its bound, on the side that
/// the fill moved it to. No fill takes the position past its bound.
pub proof fn law_match_fills_to_the_bound(
    cfg: PassiveMatcherConfig,
    inventory: i128,
    oracle: u64,
    req_size: i128,
    limit: Option<u64>,
)
    ensures
        ({
            let r = passive_lp_matcher::match_outcome(cfg, inventory, oracle, req_size, limit);
            let size = r.execution.size as int;
            let bound = terms::distance(cfg.max_abs_inventory as int);
            r.reason == Reason::Filled ==> {
                &&& -bound <= inventory - size <= bound
                &&& req_size > 0 ==> 0 < size <= req_size && size <= cfg.max_base_qty
                &&& req_size < 0 ==> req_size <= size < 0 && -size <= cfg.max_base_qty
                &&& 0 < size < req_size && size < cfg.max_base_qty ==> inventory - size == -bound
                &&& req_size < size < 0 && -size < cfg.max_base_qty ==> inventory - size == bound
            }
        }),
{
    law_match(cfg, inventory, oracle, req_size, limit);
    law_filled_match(cfg, inventory, oracle, req_size, limit);
}

} // verus!
