//! The matcher's interface in one place, under all its names.
use vstd::prelude::*;

pub use crate::calls::{process_batch_call, process_call};
pub use crate::context::{MatcherCtx, MatcherKind, MATCHER_MAGIC, MATCHER_VERSION};
pub use crate::init::{InitParams, INIT_CTX_LEN, INIT_CTX_LEN_V3};
pub use crate::pricing::{
    check_inventory_limit, compute_execution, compute_insurance_fee, compute_passive_execution,
    compute_skew_extra_bps, compute_vamm_execution, INSURANCE_FEE_DENOM,
};
pub use crate::processor::process_init;

pub use crate::calls::process_call as process_vamm_call;
pub use crate::context::MatcherCtx as VammCtx;
pub use crate::context::MatcherKind as MatcherMode;
pub use crate::context::MATCHER_MAGIC as VAMM_MAGIC;
pub use crate::processor::process_init as process_init_vamm;

verus! {

/// Another name of the parameters.
pub type InitVammParams = InitParams;

/// Another name of the full form's length.
pub const INIT_VAMM_LEN: usize = INIT_CTX_LEN;

} // verus!
