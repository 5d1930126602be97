//! Matcher for perpetual markets: quotes around an oracle price, fills requests
//! against one liquidity provider's inventory and keeps that provider's context
//! account.
//!
//! `process_instruction` is the way in. Below it, `processor` checks accounts and
//! sets them up, `calls` handles single and batched calls, `settlement` books one
//! fill and `pricing` decides its size and price. `context`, `init` and `abi` hold
//! the layouts, `laws` what is proved of all of it together. `passive_lp_matcher`
//! is a matcher of its own that needs no account.
pub mod abi;
pub mod account;
pub mod bytes;
pub mod calls;
pub mod context;
pub mod error;
pub mod init;
pub mod laws;
pub mod math;
pub mod passive_lp_matcher;
pub mod pricing;
pub mod processor;
pub mod settlement;
pub mod vamm;

pub use crate::abi::{
    MatcherCall, MatcherReturn, CTX_RETURN_OFFSET, CTX_VAMM_LEN, CTX_VAMM_OFFSET,
    ERR_INCONSISTENT_LEG_ORACLE_PRICE, FLAG_PARTIAL_OK, FLAG_REJECTED, FLAG_VALID,
    MATCHER_ABI_VERSION, MATCHER_BATCH_CALL_TAG, MATCHER_BATCH_HEADER_LEN, MATCHER_BATCH_LEG_LEN,
    MATCHER_BATCH_MAX_LEGS, MATCHER_CALL_LEN, MATCHER_CALL_TAG, MATCHER_CONTEXT_LEN,
    MATCHER_INIT_VAMM_TAG, MATCHER_RETURN_LEN, ORACLE_PRICE_E6_MAX,
};
pub use crate::account::Account;
pub use crate::error::MatcherError;
pub use crate::passive_lp_matcher::{
    compute_quote, MatchResult, MatchingEngine, PassiveLpState, PassiveMatcherConfig,
    PassiveOracleBpsMatcher, Quote, Reason, TradeExecution,
};
pub use crate::processor::process_instruction;
pub use crate::vamm::{
    check_inventory_limit, compute_execution, compute_insurance_fee, compute_passive_execution,
    compute_skew_extra_bps, compute_vamm_execution, process_batch_call, process_call, process_init,
    process_init_vamm, process_vamm_call, InitParams, InitVammParams, MatcherCtx, MatcherKind,
    MatcherMode, VammCtx, INIT_CTX_LEN, INIT_CTX_LEN_V3, INIT_VAMM_LEN, MATCHER_MAGIC,
    MATCHER_VERSION, VAMM_MAGIC,
};
