//! Instructions: setting up a context account, and calls on it once its accounts
//! are found in order.
use vstd::prelude::*;

use crate::abi::{
    CTX_VAMM_OFFSET, MATCHER_BATCH_CALL_TAG, MATCHER_CALL_TAG, MATCHER_CONTEXT_LEN,
    MATCHER_INIT_VAMM_TAG,
};
use crate::account;
use crate::account::Account;
use crate::bytes;
use crate::calls;
use crate::context;
use crate::context::{CtxModel, MatcherCtx, MatcherKind, MATCHER_MAGIC, MATCHER_VERSION};
use crate::error::MatcherError;
use crate::init::InitParams;
use crate::math;

verus! {

/// What every instruction asks of its accounts: first the provider, who signs,
/// then the context account, which belongs to the program, is long enough and
/// may be written.
pub open spec fn accounts_checked(program_id: Seq<u8>, accounts: Seq<Account>) -> Result<
    (),
    MatcherError,
> {
    if accounts.len() < 2 {
        Err(MatcherError::NotEnoughAccountKeys)
    } else if accounts[1].owner@ != program_id {
        Err(MatcherError::IncorrectProgramId)
    } else if accounts[1].data@.len() < MATCHER_CONTEXT_LEN {
        Err(MatcherError::AccountDataTooSmall)
    } else if !accounts[1].is_writable {
        Err(MatcherError::InvalidAccountData)
    } else if !accounts[0].is_signer {
        Err(MatcherError::MissingRequiredSignature)
    } else {
        Ok(())
    }
}

/// The state that a context account starts with. Limits beyond an `i128` mean "no
/// limit" and are cut to the largest one.
pub open spec fn initial_state(params: InitParams, key: Seq<u8>) -> CtxModel {
    CtxModel {
        magic: MATCHER_MAGIC,
        version: MATCHER_VERSION,
        kind: params.kind,
        pad0: bytes::zeros(3),
        lp_pda: key,
        trading_fee_bps: params.trading_fee_bps,
        base_spread_bps: params.base_spread_bps,
        max_total_bps: params.max_total_bps,
        impact_k_bps: params.impact_k_bps,
        liquidity_notional_e6: params.liquidity_notional_e6,
        max_fill_abs: math::lesser(params.max_fill_abs as int, i128::MAX as int) as u128,
        inventory_base: 0,
        last_oracle_price_e6: 0,
        last_exec_price_e6: 0,
        max_inventory_abs: math::lesser(params.max_inventory_abs as int, i128::MAX as int) as u128,
        insurance_accrued_e6: 0,
        fee_to_insurance_bps: params.fee_to_insurance_bps,
        skew_spread_mult_bps: params.skew_spread_mult_bps,
        new_pad: bytes::zeros(4),
        lp_account_id: params.lp_account_id,
        insurance_fee_remainder_e6: 0,
        reserved: bytes::zeros(80),
    }
}

/// Whether the context account was set up before.
pub open spec fn initialized(accounts: Seq<Account>) -> bool {
    CtxModel::marked(accounts[1].data@.skip(CTX_VAMM_OFFSET as int))
}

/// What setting up makes of the context account's data: the new state behind the
/// answer's place.
pub open spec fn init_outcome(
    program_id: Seq<u8>,
    accounts: Seq<Account>,
    instruction: Seq<u8>,
) -> Result<Seq<u8>, MatcherError> {
    match accounts_checked(program_id, accounts) {
        Err(e) => Err(e),
        Ok(_) => match InitParams::parsed(instruction) {
            Err(e) => Err(e),
            Ok(params) => {
                let state = initial_state(params, accounts[0].key@);
                let data = accounts[1].data@;
                if context::kind_of(params.kind) is Err {
                    Err(MatcherError::InvalidInstructionData)
                } else if initialized(accounts) {
                    Err(MatcherError::AccountAlreadyInitialized)
                } else {
                    match state.validation() {
                        Err(e) => Err(e),
                        Ok(_) => Ok(
                            data.take(CTX_VAMM_OFFSET as int) + state.encoded() + data.skip(
                                MATCHER_CONTEXT_LEN as int,
                            ),
                        ),
                    }
                }
            },
        },
    }
}

/// Whether `after` is `before` with `data` in the context account and nothing else
/// changed.
pub open spec fn updated(before: Seq<Account>, after: Seq<Account>, data: Seq<u8>) -> bool {
    &&& after.len() == before.len() >= 2
    &&& calls::rewritten(before[1], after[1], data)
    &&& forall|i: int| 0 <= i < before.len() && i != 1 ==> after[i] == before[i]
}

/// Checks the accounts of an instruction.
fn check_accounts(program_id: &[u8; 32], accounts: &[Account]) -> (r: Result<(), MatcherError>)
    ensures
        r == accounts_checked(program_id@, accounts@),
{
    if accounts.len() < 2 {
        return Err(MatcherError::NotEnoughAccountKeys);
    }
    let lp_pda: &Account = &accounts[0];
    let ctx_account: &Account = &accounts[1];
    if !account::same_bytes(&ctx_account.owner, program_id) {
        return Err(MatcherError::IncorrectProgramId);
    }
    if ctx_account.data.len() < MATCHER_CONTEXT_LEN {
        return Err(MatcherError::AccountDataTooSmall);
    }
    if !ctx_account.is_writable {
        return Err(MatcherError::InvalidAccountData);
    }
    if !lp_pda.is_signer {
        return Err(MatcherError::MissingRequiredSignature);
    }
    Ok(())
}

/// Sets up the context account for the provider that signs, once.
pub fn process_init(program_id: &[u8; 32], accounts: &mut [Account], instruction_data: &[u8]) -> (r:
    Result<(), MatcherError>)
    ensures
        match init_outcome(program_id@, old(accounts)@, instruction_data@) {
            Ok(data) => r is Ok && updated(old(accounts)@, final(accounts)@, data),
            Err(e) => r == Err::<(), MatcherError>(e) && final(accounts)@ == old(accounts)@,
        },
{
    check_accounts(program_id, accounts)?;
    let params: InitParams = InitParams::parse(instruction_data)?;
    MatcherKind::try_from(params.kind)?;
    if MatcherCtx::is_initialized(calls::state_bytes(&accounts[1])) {
        return Err(MatcherError::AccountAlreadyInitialized);
    }
    let ctx: MatcherCtx = MatcherCtx {
        magic: MATCHER_MAGIC,
        version: MATCHER_VERSION,
        kind: params.kind,
        _pad0: [0u8; 3],
        lp_pda: accounts[0].key,
        trading_fee_bps: params.trading_fee_bps,
        base_spread_bps: params.base_spread_bps,
        max_total_bps: params.max_total_bps,
        impact_k_bps: params.impact_k_bps,
        liquidity_notional_e6: params.liquidity_notional_e6,
        max_fill_abs: math::min_u128(params.max_fill_abs, i128::MAX as u128),
        inventory_base: 0,
        last_oracle_price_e6: 0,
        last_exec_price_e6: 0,
        max_inventory_abs: math::min_u128(params.max_inventory_abs, i128::MAX as u128),
        insurance_accrued_e6: 0,
        fee_to_insurance_bps: params.fee_to_insurance_bps,
        skew_spread_mult_bps: params.skew_spread_mult_bps,
        _new_pad: [0u8; 4],
        lp_account_id: params.lp_account_id,
        insurance_fee_remainder_e6: 0,
        _reserved: [0u8; 80],
    };
    proof {
        assert(ctx._pad0@ =~= bytes::zeros(3));
        assert(ctx._new_pad@ =~= bytes::zeros(4));
        assert(ctx._reserved@ =~= bytes::zeros(80));
        assert(ctx@ == initial_state(params, accounts@[0].key@));
    }
    ctx.validate()?;
    calls::store(&mut accounts[1], &ctx);
    Ok(())
}

/// The accounts are in order and the context account was set up.
pub open spec fn callable(program_id: Seq<u8>, accounts: Seq<Account>) -> Result<
    (),
    MatcherError,
> {
    match accounts_checked(program_id, accounts) {
        Err(e) => Err(e),
        Ok(_) => if initialized(accounts) {
            Ok(())
        } else {
            Err(MatcherError::UninitializedAccount)
        },
    }
}

/// What a single call makes of the context account's data, its accounts checked.
pub open spec fn matcher_call_outcome(
    program_id: Seq<u8>,
    accounts: Seq<Account>,
    instruction: Seq<u8>,
) -> Result<Seq<u8>, MatcherError> {
    match callable(program_id, accounts) {
        Err(e) => Err(e),
        Ok(_) => calls::call_outcome(accounts[0].key@, accounts[1].data@, instruction),
    }
}

/// What a batch makes of the context account's data, its accounts checked, and the
/// bytes it returns.
pub open spec fn batch_matcher_call_outcome(
    program_id: Seq<u8>,
    accounts: Seq<Account>,
    instruction: Seq<u8>,
) -> Result<(Seq<u8>, Seq<u8>), MatcherError> {
    match callable(program_id, accounts) {
        Err(e) => Err(e),
        Ok(_) => calls::batch_outcome(accounts[0].key@, accounts[1].data@, instruction),
    }
}

/// What an instruction makes of the context account's data, and the bytes it
/// returns, where it returns any.
pub open spec fn instruction_outcome(
    program_id: Seq<u8>,
    accounts: Seq<Account>,
    instruction: Seq<u8>,
) -> Result<(Seq<u8>, Option<Seq<u8>>), MatcherError> {
    if instruction.len() == 0 {
        Err(MatcherError::InvalidInstructionData)
    } else if instruction[0] == MATCHER_CALL_TAG {
        match matcher_call_outcome(program_id, accounts, instruction) {
            Err(e) => Err(e),
            Ok(data) => Ok((data, None)),
        }
    } else if instruction[0] == MATCHER_BATCH_CALL_TAG {
        match batch_matcher_call_outcome(program_id, accounts, instruction) {
            Err(e) => Err(e),
            Ok((data, returned)) => Ok((data, Some(returned))),
        }
    } else if instruction[0] == MATCHER_INIT_VAMM_TAG {
        match init_outcome(program_id, accounts, instruction) {
            Err(e) => Err(e),
            Ok(data) => Ok((data, None)),
        }
    } else {
        Err(MatcherError::InvalidInstructionData)
    }
}

/// Checks the accounts of a call.
fn check_callable(program_id: &[u8; 32], accounts: &[Account]) -> (r: Result<(), MatcherError>)
    ensures
        r == callable(program_id@, accounts@),
{
    check_accounts(program_id, accounts)?;
    if !MatcherCtx::is_initialized(calls::state_bytes(&accounts[1])) {
        return Err(MatcherError::UninitializedAccount);
    }
    Ok(())
}

/// A single call, with its accounts checked. Where it is refused, no account
/// changes.
pub fn process_matcher_call(
    program_id: &[u8; 32],
    accounts: &mut [Account],
    instruction_data: &[u8],
) -> (r: Result<(), MatcherError>)
    ensures
        match matcher_call_outcome(program_id@, old(accounts)@, instruction_data@) {
            Ok(data) => r is Ok && updated(old(accounts)@, final(accounts)@, data),
            Err(e) => r == Err::<(), MatcherError>(e) && final(accounts)@ == old(accounts)@,
        },
{
    check_callable(program_id, accounts)?;
    let (providers, contexts): (&mut [Account], &mut [Account]) = accounts.split_at_mut(1);
    let r: Result<(), MatcherError> = calls::process_call(
        &providers[0],
        &mut contexts[0],
        instruction_data,
    );
    assert(accounts@.len() == old(accounts)@.len());
    r
}

/// A batched call, with its accounts checked. Where it is refused, no account
/// changes.
pub fn process_batch_matcher_call(
    program_id: &[u8; 32],
    accounts: &mut [Account],
    instruction_data: &[u8],
) -> (r: Result<Vec<u8>, MatcherError>)
    ensures
        match batch_matcher_call_outcome(program_id@, old(accounts)@, instruction_data@) {
            Ok((data, returned)) => {
                &&& r is Ok
                &&& r->Ok_0@ == returned
                &&& updated(old(accounts)@, final(accounts)@, data)
            },
            Err(e) => r == Err::<Vec<u8>, MatcherError>(e) && final(accounts)@ == old(accounts)@,
        },
{
    check_callable(program_id, accounts)?;
    let (providers, contexts): (&mut [Account], &mut [Account]) = accounts.split_at_mut(1);
    let r: Result<Vec<u8>, MatcherError> = calls::process_batch_call(
        &providers[0],
        &mut contexts[0],
        instruction_data,
    );
    assert(accounts@.len() == old(accounts)@.len());
    r
}

/// Carries out an instruction. Where it returns bytes, they come back; where it is
/// refused, no account changes.
pub fn process_instruction(
    program_id: &[u8; 32],
    accounts: &mut [Account],
    instruction_data: &[u8],
) -> (r: Result<Option<Vec<u8>>, MatcherError>)
    ensures
        match instruction_outcome(program_id@, old(accounts)@, instruction_data@) {
            Ok((data, None)) => {
                &&& r == Ok::<Option<Vec<u8>>, MatcherError>(None)
                &&& updated(old(accounts)@, final(accounts)@, data)
            },
            Ok((data, Some(returned))) => {
                &&& r is Ok
                &&& r->Ok_0 is Some
                &&& r->Ok_0->Some_0@ == returned
                &&& updated(old(accounts)@, final(accounts)@, data)
            },
            Err(e) => {
                &&& r == Err::<Option<Vec<u8>>, MatcherError>(e)
                &&& final(accounts)@ == old(accounts)@
            },
        },
{
    if instruction_data.len() == 0 {
        return Err(MatcherError::InvalidInstructionData);
    }
    let tag: u8 = instruction_data[0];
    if tag == MATCHER_CALL_TAG {
        process_matcher_call(program_id, accounts, instruction_data)?;
        Ok(None)
    } else if tag == MATCHER_BATCH_CALL_TAG {
        let answers: Vec<u8> = process_batch_matcher_call(program_id, accounts, instruction_data)?;
        Ok(Some(answers))
    } else if tag == MATCHER_INIT_VAMM_TAG {
        process_init(program_id, accounts, instruction_data)?;
        Ok(None)
    } else {
        Err(MatcherError::InvalidInstructionData)
    }
}

} // verus!
