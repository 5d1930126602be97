//! A matcher that quotes a fixed edge around the oracle price and keeps nothing
//! but the provider's position.
use vstd::prelude::*;

use crate::math;

verus! {

/// Why a request was filled or not.
#[derive(Clone, Copy, Debug, PartialEq, Eq, Structural)]
pub enum Reason {
    Filled,
    ZeroQty,
    OracleZero,
    NotCrossed,
    TakerLimitTooTight,
    LpMaxSize,
    LpInventoryLimit,
    MathOverflow,
}

/// Price and signed size of a fill.
#[derive(Clone, Copy, Debug, PartialEq, Eq, Structural)]
pub struct TradeExecution {
    pub price: u64,
    pub size: i128,
}

/// A fill, or the reason for none.
#[derive(Clone, Copy, Debug, PartialEq, Eq, Structural)]
pub struct MatchResult {
    pub execution: TradeExecution,
    pub reason: Reason,
    /// What the provider receives in quote currency; negative where it pays.
    pub quote_delta_lp: i128,
}

impl MatchResult {
    /// No fill.
    pub fn unfilled(reason: Reason) -> (r: Self)
        ensures
            r == (MatchResult {
                execution: TradeExecution { price: 0, size: 0 },
                reason,
                quote_delta_lp: 0,
            }),
    {
        MatchResult { execution: TradeExecution { price: 0, size: 0 }, reason, quote_delta_lp: 0 }
    }

    /// A fill.
    pub fn filled(price: u64, size: i128, quote_delta_lp: i128) -> (r: Self)
        ensures
            r == (MatchResult {
                execution: TradeExecution { price, size },
                reason: Reason::Filled,
                quote_delta_lp,
            }),
    {
        MatchResult { execution: TradeExecution { price, size }, reason: Reason::Filled, quote_delta_lp }
    }
}

/// How the provider quotes and how far it goes.
#[derive(Clone, Copy, Debug, PartialEq, Eq, Structural)]
pub struct PassiveMatcherConfig {
    /// Edge on each side, in basis points.
    pub edge_bps: u16,
    /// Least size that is looked at.
    pub min_base_qty: u64,
    /// Most that one fill takes.
    pub max_base_qty: u64,
    /// Bound on the position's size; its sign is ignored.
    pub max_abs_inventory: i128,
}

impl Default for PassiveMatcherConfig {
    /// 50 basis points and no limits.
    fn default() -> (r: Self)
        ensures
            r == (PassiveMatcherConfig {
                edge_bps: 50,
                min_base_qty: 1,
                max_base_qty: u64::MAX,
                max_abs_inventory: i128::MAX,
            }),
    {
        PassiveMatcherConfig {
            edge_bps: 50,
            min_base_qty: 1,
            max_base_qty: u64::MAX,
            max_abs_inventory: i128::MAX,
        }
    }
}

/// The provider's position: positive is long, negative is short.
#[derive(Clone, Copy, Debug, PartialEq, Eq, Structural)]
pub struct PassiveLpState {
    pub inventory_base: i128,
}

impl Default for PassiveLpState {
    /// No position.
    fn default() -> (r: Self)
        ensures
            r == (PassiveLpState { inventory_base: 0 }),
    {
        PassiveLpState { inventory_base: 0 }
    }
}

/// The prices at which the provider buys and sells.
#[derive(Clone, Copy, Debug, PartialEq, Eq, Structural)]
pub struct Quote {
    pub bid: u64,
    pub ask: u64,
}

/// The oracle price less the edge, rounded down; an edge beyond the whole price
/// leaves nothing.
pub open spec fn bid_price(edge_bps: u16, oracle: int) -> int {
    if edge_bps <= 10_000 {
        oracle * (10_000 - edge_bps) / 10_000
    } else {
        0
    }
}

/// The oracle price plus the edge, rounded up.
pub open spec fn ask_price(edge_bps: u16, oracle: int) -> int {
    math::ceil_div(oracle * (10_000 + edge_bps), 10_000)
}

/// What `compute_quote` gives: nothing for a price of zero, nor where the ask does
/// not fit.
pub open spec fn quote(cfg: PassiveMatcherConfig, oracle_price: u64) -> Option<Quote> {
    if oracle_price == 0 || ask_price(cfg.edge_bps, oracle_price as int) > u64::MAX {
        None
    } else {
        Some(
            Quote {
                bid: bid_price(cfg.edge_bps, oracle_price as int) as u64,
                ask: ask_price(cfg.edge_bps, oracle_price as int) as u64,
            },
        )
    }
}

/// `n / d`, rounded up; nothing where `d` is zero.
fn ceil_div_u128(n: u128, d: u128) -> (r: Option<u128>)
    ensures
        d == 0 ==> r is None,
        d > 0 ==> r is Some && r->Some_0 == math::ceil_div(n as int, d as int),
{
    if d == 0 {
        return None;
    }
    let q: u128 = n / d;
    proof {
        vstd::arithmetic::div_mod::lemma_fundamental_div_mod(n as int, d as int);
        if n % d == 0 {
            assert((n + d - 1) / (d as int) == q) by (nonlinear_arith)
                requires
                    n == d * q,
                    d > 0,
            ;
        } else {
            let m = (n % d) as int;
            assert((n + d - 1) / (d as int) == q + 1) by (nonlinear_arith)
                requires
                    n == d * q + m,
                    0 < m < d,
            ;
            assert(q < u128::MAX) by (nonlinear_arith)
                requires
                    n == d * q + m,
                    0 < m < d,
                    n <= u128::MAX,
            ;
        }
    }
    if n % d == 0 {
        Some(q)
    } else {
        Some(q + 1)
    }
}

/// Bid and ask around the oracle price.
pub fn compute_quote(cfg: &PassiveMatcherConfig, oracle_price: u64) -> (r: Option<Quote>)
    ensures
        r == quote(*cfg, oracle_price),
{
    if oracle_price == 0 {
        return None;
    }
    let oracle: u128 = oracle_price as u128;
    let edge: u128 = cfg.edge_bps as u128;
    let denom: u128 = 10_000;
    proof {
        assert(0 <= oracle * (10_000 + edge) <= u64::MAX * (10_000 + u16::MAX)) by (nonlinear_arith)
            requires
                0 <= oracle <= u64::MAX,
                0 <= edge <= u16::MAX,
        ;
        if edge <= 10_000 {
            assert(0 <= oracle * (10_000 - edge) <= oracle * 10_000) by (nonlinear_arith)
                requires
                    0 <= oracle,
                    0 <= edge <= 10_000,
            ;
        }
        assert(oracle * 0 == 0);
    }
    let bid_numer: u128 = oracle.checked_mul(denom.saturating_sub(edge))?;
    let bid: u128 = bid_numer / denom;
    let ask_numer: u128 = oracle.checked_mul(denom.checked_add(edge)?)?;
    let ask: u128 = ceil_div_u128(ask_numer, denom)?;
    if bid > u64::MAX as u128 {
        return None;
    }
    if ask > u64::MAX as u128 {
        return None;
    }
    Some(Quote { bid: bid as u64, ask: ask as u64 })
}

/// The price for a user who buys or sells.
pub open spec fn side_price(q: Quote, is_buy: bool) -> u64 {
    if is_buy {
        q.ask
    } else {
        q.bid
    }
}

/// Whether the user's limit rules the price out: a buyer pays no more, a seller
/// takes no less.
pub open spec fn beyond_limit(price: u64, is_buy: bool, limit_price: Option<u64>) -> bool {
    match limit_price {
        None => false,
        Some(limit) => if is_buy {
            limit < price
        } else {
            limit > price
        },
    }
}

/// How much of `size` the bound on the position lets through: all of it where the
/// position stays within the bound, else what headroom is left. A position that is
/// beyond the far bound and stays there is not moved.
pub open spec fn bounded_fill(bound: int, inventory: int, size: int, is_buy: bool) -> Result<
    int,
    Reason,
> {
    let after = if is_buy {
        inventory - size
    } else {
        inventory + size
    };
    let headroom = if is_buy {
        bound + inventory
    } else {
        bound - inventory
    };
    if !math::fits_i128(after) {
        Err(Reason::MathOverflow)
    } else if math::magnitude(after) <= bound {
        Ok(size)
    } else if headroom <= 0 {
        Err(Reason::LpInventoryLimit)
    } else if !math::fits_i128(headroom) {
        Err(Reason::MathOverflow)
    } else if headroom >= size {
        Err(Reason::LpInventoryLimit)
    } else {
        Ok(headroom)
    }
}

/// The price and the size that a request is filled with, or why it is not.
pub open spec fn matched(
    cfg: PassiveMatcherConfig,
    inventory: i128,
    oracle_price: u64,
    req_size: i128,
    limit_price: Option<u64>,
) -> Result<(u64, int), Reason> {
    let is_buy = req_size > 0;
    let wanted = math::magnitude(req_size as int) as int;
    let capped = math::lesser(wanted, cfg.max_base_qty as int);
    if req_size == 0 || wanted < cfg.min_base_qty {
        Err(Reason::ZeroQty)
    } else {
        match quote(cfg, oracle_price) {
            None => Err(Reason::OracleZero),
            Some(q) => if beyond_limit(side_price(q, is_buy), is_buy, limit_price) {
                Err(Reason::TakerLimitTooTight)
            } else if capped == 0 {
                Err(Reason::LpMaxSize)
            } else {
                match bounded_fill(
                    math::magnitude(cfg.max_abs_inventory as int) as int,
                    inventory as int,
                    capped,
                    is_buy,
                ) {
                    Err(e) => Err(e),
                    Ok(fill) => if fill * side_price(q, is_buy) > i128::MAX {
                        Err(Reason::MathOverflow)
                    } else {
                        Ok((side_price(q, is_buy), fill))
                    },
                }
            },
        }
    }
}

/// What `execute_match` gives. Sizes carry the user's sign; what the user pays, the
/// provider receives.
pub open spec fn match_outcome(
    cfg: PassiveMatcherConfig,
    inventory: i128,
    oracle_price: u64,
    req_size: i128,
    limit_price: Option<u64>,
) -> MatchResult {
    match matched(cfg, inventory, oracle_price, req_size, limit_price) {
        Err(reason) => MatchResult {
            execution: TradeExecution { price: 0, size: 0 },
            reason,
            quote_delta_lp: 0,
        },
        Ok((price, fill)) => {
            let size = if req_size > 0 {
                fill
            } else {
                -fill
            };
            MatchResult {
                execution: TradeExecution { price, size: size as i128 },
                reason: Reason::Filled,
                quote_delta_lp: (size * price) as i128,
            }
        },
    }
}

/// The matcher; it has no settings of its own.
#[derive(Clone, Copy, Debug)]
pub struct PassiveOracleBpsMatcher;

impl Default for PassiveOracleBpsMatcher {
    fn default() -> (r: Self)
        ensures
            r == PassiveOracleBpsMatcher,
    {
        PassiveOracleBpsMatcher
    }
}

/// How much of `size` the bound on the position lets through.
fn compute_bounded_fill(bound: u128, inventory: i128, size: u128, is_buy: bool) -> (r: Result<
    u128,
    Reason,
>)
    requires
        0 < size <= u64::MAX,
    ensures
        r is Ok <==> bounded_fill(bound as int, inventory as int, size as int, is_buy) is Ok,
        r matches Ok(fill) ==> {
            &&& bounded_fill(bound as int, inventory as int, size as int, is_buy)->Ok_0 == fill
            &&& 0 < fill <= size
        },
        r matches Err(e) ==> bounded_fill(bound as int, inventory as int, size as int, is_buy)
            == Err::<int, Reason>(e),
{
    let delta: i128 = if is_buy {
        -(size as i128)
    } else {
        size as i128
    };
    let after: i128 = match inventory.checked_add(delta) {
        Some(v) => v,
        None => return Err(Reason::MathOverflow),
    };
    if math::unsigned_abs(after) <= bound {
        return Ok(size);
    }
    let bound_i: i128 = bound as i128;
    let headroom: i128 = if is_buy {
        if inventory <= -bound_i {
            return Err(Reason::LpInventoryLimit);
        }
        match inventory.checked_add(bound_i) {
            Some(v) => v,
            None => return Err(Reason::MathOverflow),
        }
    } else {
        if inventory >= bound_i {
            return Err(Reason::LpInventoryLimit);
        }
        match bound_i.checked_sub(inventory) {
            Some(v) => v,
            None => return Err(Reason::MathOverflow),
        }
    };
    let fill: u128 = math::min_u128(size, math::unsigned_abs(headroom));
    if fill == size {
        return Err(Reason::LpInventoryLimit);
    }
    Ok(fill)
}

impl PassiveOracleBpsMatcher {
    /// Fills a request at the quote, as far as the user's limit and the provider's
    /// limits allow. The position moves against the user's size, and only by a fill.
    pub fn execute_match(
        &self,
        cfg: &PassiveMatcherConfig,
        lp: &mut PassiveLpState,
        oracle_price: u64,
        req_size: i128,
        limit_price: Option<u64>,
    ) -> (r: MatchResult)
        ensures
            r == match_outcome(*cfg, old(lp).inventory_base, oracle_price, req_size, limit_price),
            final(lp).inventory_base == old(lp).inventory_base - r.execution.size,
    {
        if req_size == 0 {
            return MatchResult::unfilled(Reason::ZeroQty);
        }
        let wanted: u128 = math::unsigned_abs(req_size);
        if wanted < cfg.min_base_qty as u128 {
            return MatchResult::unfilled(Reason::ZeroQty);
        }
        let quote: Quote = match compute_quote(cfg, oracle_price) {
            Some(q) => q,
            None => return MatchResult::unfilled(Reason::OracleZero),
        };
        let is_user_buy: bool = req_size > 0;
        let exec_price: u64 = if is_user_buy {
            quote.ask
        } else {
            quote.bid
        };
        if let Some(limit) = limit_price {
            if is_user_buy {
                if limit < exec_price {
                    return MatchResult::unfilled(Reason::TakerLimitTooTight);
                }
            } else {
                if limit > exec_price {
                    return MatchResult::unfilled(Reason::TakerLimitTooTight);
                }
            }
        }
        let capped: u128 = math::min_u128(wanted, cfg.max_base_qty as u128);
        if capped == 0 {
            return MatchResult::unfilled(Reason::LpMaxSize);
        }
        let bound: u128 = math::unsigned_abs(cfg.max_abs_inventory);
        let fill: u128 = match compute_bounded_fill(bound, lp.inventory_base, capped, is_user_buy) {
            Ok(f) => f,
            Err(e) => return MatchResult::unfilled(e),
        };
        let amount: u128 = match fill.checked_mul(exec_price as u128) {
            Some(q) => q,
            None => return MatchResult::unfilled(Reason::MathOverflow),
        };
        if amount > i128::MAX as u128 {
            return MatchResult::unfilled(Reason::MathOverflow);
        }
        let size: i128 = if is_user_buy {
            fill as i128
        } else {
            -(fill as i128)
        };
        let quote_delta_lp: i128 = if is_user_buy {
            amount as i128
        } else {
            -(amount as i128)
        };
        assert((-fill) * exec_price == -(fill * exec_price)) by (nonlinear_arith);
        lp.inventory_base = lp.inventory_base - size;
        MatchResult::filled(exec_price, size, quote_delta_lp)
    }
}

/// What a matching engine offers.
pub trait MatchingEngine {
    /// Fills a request or says why not.
    fn execute_match(
        &self,
        cfg: &PassiveMatcherConfig,
        lp: &mut PassiveLpState,
        oracle_price: u64,
        req_size: i128,
        limit_price: Option<u64>,
    ) -> MatchResult;
}

impl MatchingEngine for PassiveOracleBpsMatcher {
    fn execute_match(
        &self,
        cfg: &PassiveMatcherConfig,
        lp: &mut PassiveLpState,
        oracle_price: u64,
        req_size: i128,
        limit_price: Option<u64>,
    ) -> (r: MatchResult)
        ensures
            r == match_outcome(*cfg, old(lp).inventory_base, oracle_price, req_size, limit_price),
            final(lp).inventory_base == old(lp).inventory_base - r.execution.size,
    {
        PassiveOracleBpsMatcher::execute_match(self, cfg, lp, oracle_price, req_size, limit_price)
    }
}

} // verus!
