//! What every instruction keeps of the context account, and who may use it.
use vstd::prelude::*;

use crate::abi::{
    MatcherCall, MatcherReturn, CTX_VAMM_OFFSET, MATCHER_ABI_VERSION, MATCHER_CONTEXT_LEN,
    MATCHER_RETURN_LEN,
};
use crate::account::Account;
use crate::bytes;
use crate::calls;
use crate::context::{CtxModel, MATCHER_MAGIC};
use crate::error::MatcherError;
use crate::init::InitParams;
use crate::laws::insurance;
use crate::laws::layout;
use crate::math;
use crate::pricing;
use crate::pricing::INSURANCE_FEE_DENOM;
use crate::processor;
use crate::settlement;

verus! {

/// The state that a context account's data holds.
pub open spec fn state_of(data: Seq<u8>) -> CtxModel {
    CtxModel::decoded(data.skip(CTX_VAMM_OFFSET as int))
}

/// What holds of a state from the moment it is set up: its parameters are allowed,
/// the position is within its bound, and less than a unit of insurance fee is
/// carried over.
pub open spec fn sound(m: CtxModel) -> bool {
    &&& m.magic == MATCHER_MAGIC
    &&& m.valid()
    &&& m.max_inventory_abs == 0 || math::magnitude(m.inventory_base as int) <= m.max_inventory_abs
    &&& m.insurance_fee_remainder_e6 < INSURANCE_FEE_DENOM
}

/// A fill changes no parameter, moves the position by exactly the size it answers,
/// and keeps a sound state sound.
pub proof fn law_fill_keeps_soundness(m: CtxModel, call: MatcherCall)
    ensures
        settlement::step(m, call) matches Ok((after, ret)) ==> {
            &&& sound(m) ==> sound(after)
            &&& settlement::same_parameters(m, after)
            &&& after.inventory_base == m.inventory_base - ret.exec_size
        },
{
    if m.valid() {
        settlement::lemma_valid_is_executable(m, call);
    }
    if let Ok((price, size, flags)) = pricing::execution(m, call) {
        insurance::law_remainder_below_unit(m, size as int, price as int);
    }
}

/// An answer echoes the call and carries the layout's version.
pub proof fn law_answer_echoes_call(m: CtxModel, call: MatcherCall)
    ensures
        settlement::step(m, call) matches Ok((_, ret)) ==> {
            &&& ret.abi_version == MATCHER_ABI_VERSION
            &&& ret.req_id == call.req_id
            &&& ret.lp_account_id == call.lp_account_id
            &&& ret.oracle_price_e6 == call.oracle_price_e6
            &&& ret.asset_index == call.asset_index
        },
{
}

/// A call that fills nothing leaves the state as it was.
pub proof fn law_no_fill_no_change(m: CtxModel, call: MatcherCall)
    ensures
        settlement::step(m, call) matches Ok((after, ret)) ==> ret.exec_size == 0 ==> after == m,
{
}

/// What was written behind 64 bytes is read back as the state.
#[verifier::rlimit(30)]
pub(crate) proof fn lemma_state_read_back(front: Seq<u8>, m: CtxModel, rest: Seq<u8>)
    requires
        front.len() == CTX_VAMM_OFFSET,
        m.sized(),
        m.magic == MATCHER_MAGIC,
        m.pad0 == bytes::zeros(3),
        m.new_pad == bytes::zeros(4),
    ensures
        (front + m.encoded() + rest).len() == MATCHER_CONTEXT_LEN + rest.len(),
        CtxModel::stored((front + m.encoded() + rest).skip(CTX_VAMM_OFFSET as int)) == Ok::<
            CtxModel,
            MatcherError,
        >(m),
        state_of(front + m.encoded() + rest) == m,
{
    layout::law_state_round_trip(m, rest);
    lemma_skip_front(front, m.encoded(), rest);
}

/// What follows the front part of a concatenation.
pub(crate) proof fn lemma_skip_front(front: Seq<u8>, middle: Seq<u8>, rest: Seq<u8>)
    ensures
        (front + middle + rest).len() == front.len() + middle.len() + rest.len(),
        (front + middle + rest).take(front.len() as int) == front,
        (front + middle + rest).skip(front.len() as int) == middle + rest,
        (front + middle + rest).skip((front.len() + middle.len()) as int) == rest,
{
    assert((front + middle + rest).take(front.len() as int) =~= front);
    assert((front + middle + rest).skip(front.len() as int) =~= middle + rest);
    assert((front + middle + rest).skip((front.len() + middle.len()) as int) =~= rest);
}

/// What a state read from an account is like.
pub(crate) proof fn lemma_decoded_shape(data: Seq<u8>)
    requires
        data.len() >= MATCHER_CONTEXT_LEN,
    ensures
        state_of(data).sized(),
        state_of(data).pad0 == bytes::zeros(3),
        state_of(data).new_pad == bytes::zeros(4),
{
}

/// Setting up writes the initial state: it reads back, it is sound, and what
/// surrounds it stays as it was.
#[verifier::rlimit(30)]
pub proof fn law_init_writes_state(
    program_id: Seq<u8>,
    accounts: Seq<Account>,
    instruction: Seq<u8>,
)
    ensures
        processor::init_outcome(program_id, accounts, instruction) matches Ok(data) ==> {
            &&& data.len() == accounts[1].data@.len()
            &&& data.take(CTX_VAMM_OFFSET as int) == accounts[1].data@.take(CTX_VAMM_OFFSET as int)
            &&& data.skip(MATCHER_CONTEXT_LEN as int) == accounts[1].data@.skip(
                MATCHER_CONTEXT_LEN as int,
            )
            &&& state_of(data) == processor::initial_state(
                InitParams::decoded(instruction),
                accounts[0].key@,
            )
            &&& sound(state_of(data))
            &&& CtxModel::marked(data.skip(CTX_VAMM_OFFSET as int))
        },
{
    if let Ok(data) = processor::init_outcome(program_id, accounts, instruction) {
        let before = accounts[1].data@;
        let state = processor::initial_state(InitParams::decoded(instruction), accounts[0].key@);
        lemma_state_read_back(
            before.take(CTX_VAMM_OFFSET as int),
            state,
            before.skip(MATCHER_CONTEXT_LEN as int),
        );
        crate::context::lemma_ctx_len(state);
        lemma_skip_front(
            before.take(CTX_VAMM_OFFSET as int),
            state.encoded(),
            before.skip(MATCHER_CONTEXT_LEN as int),
        );
    }
}

/// A context account is set up once: where it was, or after it was, setting up is
/// refused, whoever asks and with whatever parameters.
pub proof fn law_one_time_init(
    program_id: Seq<u8>,
    accounts: Seq<Account>,
    instruction: Seq<u8>,
    later: Seq<Account>,
    later_instruction: Seq<u8>,
)
    requires
        later.len() >= 2,
        processor::init_outcome(program_id, accounts, instruction) == Ok::<
            Seq<u8>,
            MatcherError,
        >(later[1].data@),
    ensures
        processor::init_outcome(program_id, later, later_instruction) is Err,
{
    law_init_writes_state(program_id, accounts, instruction);
}

/// Setting up an account that was set up before is refused.
pub proof fn law_no_second_init(program_id: Seq<u8>, accounts: Seq<Account>, instruction: Seq<u8>)
    requires
        processor::initialized(accounts),
    ensures
        processor::init_outcome(program_id, accounts, instruction) is Err,
{
}

/// A call that succeeds writes its answer in front and the state after the fill
/// behind it; both read back, the state stays sound, and what follows stays as it
/// was.
#[verifier::rlimit(30)]
pub proof fn law_call_writes_state(key: Seq<u8>, data: Seq<u8>, instruction: Seq<u8>)
    requires
        data.len() >= CTX_VAMM_OFFSET,
    ensures
        calls::call_outcome(key, data, instruction) matches Ok(written) ==> {
            let call = MatcherCall::decoded(instruction);
            let result = settlement::step(state_of(data), call);
            &&& result is Ok
            &&& written.len() == data.len() >= MATCHER_CONTEXT_LEN
            &&& written.take(MATCHER_RETURN_LEN as int) == result->Ok_0.1.encoded()
            &&& state_of(written) == result->Ok_0.0
            &&& CtxModel::marked(written.skip(CTX_VAMM_OFFSET as int))
            &&& written.skip(MATCHER_CONTEXT_LEN as int) == data.skip(MATCHER_CONTEXT_LEN as int)
            &&& sound(state_of(data)) ==> sound(state_of(written))
            &&& settlement::same_parameters(state_of(data), state_of(written))
        },
{
    if let Ok(written) = calls::call_outcome(key, data, instruction) {
        let call = MatcherCall::decoded(instruction);
        let m = state_of(data);
        let (after, ret) = settlement::step(m, call)->Ok_0;
        settlement::lemma_step_keeps_parameters(m, call);
        lemma_call_written(data, after, ret);
        law_fill_keeps_soundness(m, call);
    }
}

/// What a call writes is read back.
#[verifier::rlimit(30)]
pub(crate) proof fn lemma_call_written(data: Seq<u8>, after: CtxModel, ret: MatcherReturn)
    requires
        data.len() >= MATCHER_CONTEXT_LEN,
        state_of(data).magic == MATCHER_MAGIC,
        settlement::same_parameters(state_of(data), after),
    ensures
        ({
            let written = ret.encoded() + after.encoded() + data.skip(MATCHER_CONTEXT_LEN as int);
            &&& written.len() == data.len()
            &&& written.take(MATCHER_RETURN_LEN as int) == ret.encoded()
            &&& state_of(written) == after
            &&& CtxModel::marked(written.skip(CTX_VAMM_OFFSET as int))
            &&& written.skip(MATCHER_CONTEXT_LEN as int) == data.skip(MATCHER_CONTEXT_LEN as int)
        }),
{
    lemma_decoded_shape(data);
    crate::abi::lemma_return_len(ret);
    crate::context::lemma_ctx_len(after);
    lemma_state_read_back(ret.encoded(), after, data.skip(MATCHER_CONTEXT_LEN as int));
    lemma_skip_front(ret.encoded(), after.encoded(), data.skip(MATCHER_CONTEXT_LEN as int));
}

/// Calls need the provider that the state is bound to, and, where the state names a
/// number, that number. Another key or number is refused.
pub proof fn law_provider_binding(key: Seq<u8>, data: Seq<u8>, instruction: Seq<u8>)
    requires
        data.len() >= CTX_VAMM_OFFSET,
    ensures
        key != state_of(data).lp_pda ==> {
            &&& calls::call_outcome(key, data, instruction) is Err
            &&& calls::batch_outcome(key, data, instruction) is Err
        },
        state_of(data).lp_account_id != 0 ==> {
            &&& MatcherCall::decoded(instruction).lp_account_id != state_of(data).lp_account_id
                ==> calls::call_outcome(key, data, instruction) is Err
            &&& bytes::u64_at(instruction, 10) != state_of(data).lp_account_id
                ==> calls::batch_outcome(key, data, instruction) is Err
        },
{
}

/// A malformed call or batch is refused as such, whoever sends it and whatever the
/// account holds.
pub proof fn law_malformed_refused(key: Seq<u8>, data: Seq<u8>, instruction: Seq<u8>)
    ensures
        MatcherCall::parsed(instruction) is Err || !calls::plausible_price(
            MatcherCall::decoded(instruction).oracle_price_e6,
        ) || MatcherCall::decoded(instruction).req_size == i128::MIN ==> calls::call_outcome(
            key,
            data,
            instruction,
        ) == Err::<Seq<u8>, MatcherError>(MatcherError::InvalidInstructionData),
        !calls::batch_shaped(instruction) ==> calls::batch_outcome(key, data, instruction) == Err::<
            (Seq<u8>, Seq<u8>),
            MatcherError,
        >(MatcherError::InvalidInstructionData),
{
}

/// A state without a number takes calls with any number.
pub proof fn law_zero_number_accepts_any(key: Seq<u8>, data: Seq<u8>, one: u64, other: u64)
    requires
        data.len() >= CTX_VAMM_OFFSET,
        state_of(data).lp_account_id == 0,
    ensures
        calls::admitted(key, data, one) == calls::admitted(key, data, other),
{
}

/// No instruction succeeds unless the provider signed and the context account
/// belongs to the program, is long enough and may be written.
pub proof fn law_accounts_in_order(
    program_id: Seq<u8>,
    accounts: Seq<Account>,
    instruction: Seq<u8>,
)
    ensures
        processor::instruction_outcome(program_id, accounts, instruction) is Ok ==> {
            &&& accounts.len() >= 2
            &&& accounts[0].is_signer
            &&& accounts[1].owner@ == program_id
            &&& accounts[1].is_writable
            &&& accounts[1].data@.len() >= MATCHER_CONTEXT_LEN
        },
{
}

/// Setting up never refuses a limit for its size: limits that fit in an `i128` are
/// kept, larger ones become the largest that does.
pub proof fn law_init_cuts_limits(params: InitParams, key: Seq<u8>)
    ensures
        ({
            let m = processor::initial_state(params, key);
            &&& m.max_fill_abs <= i128::MAX
            &&& m.max_inventory_abs <= i128::MAX
            &&& params.max_fill_abs <= i128::MAX ==> m.max_fill_abs == params.max_fill_abs
            &&& params.max_inventory_abs <= i128::MAX ==> m.max_inventory_abs
                == params.max_inventory_abs
        }),
{
}

/// Who does not sign learns nothing of the context account's data: whatever the
/// data holds, calls, batches and every other instruction are refused with the same
/// error. No error tells whether the account was set up; with the other checks
/// passed it is the missing signature.
pub proof fn law_no_answer_without_signature(
    program_id: Seq<u8>,
    accounts: Seq<Account>,
    other: Seq<Account>,
    instruction: Seq<u8>,
)
    requires
        accounts.len() >= 2,
        other.len() >= 2,
        !accounts[0].is_signer,
        !other[0].is_signer,
        accounts[1].owner@ == other[1].owner@,
        accounts[1].is_writable == other[1].is_writable,
        accounts[1].data@.len() == other[1].data@.len(),
    ensures
        refused_alike(
            processor::matcher_call_outcome(program_id, accounts, instruction),
            processor::matcher_call_outcome(program_id, other, instruction),
        ),
        refused_alike(
            processor::batch_matcher_call_outcome(program_id, accounts, instruction),
            processor::batch_matcher_call_outcome(program_id, other, instruction),
        ),
        refused_alike(
            processor::init_outcome(program_id, accounts, instruction),
            processor::init_outcome(program_id, other, instruction),
        ),
        refused_alike(
            processor::instruction_outcome(program_id, accounts, instruction),
            processor::instruction_outcome(program_id, other, instruction),
        ),
        accounts[1].owner@ == program_id && accounts[1].data@.len() >= MATCHER_CONTEXT_LEN
            && accounts[1].is_writable ==> {
            &&& processor::matcher_call_outcome(program_id, accounts, instruction) == Err::<
                Seq<u8>,
                MatcherError,
            >(MatcherError::MissingRequiredSignature)
            &&& processor::batch_matcher_call_outcome(program_id, accounts, instruction) == Err::<
                (Seq<u8>, Seq<u8>),
                MatcherError,
            >(MatcherError::MissingRequiredSignature)
            &&& processor::init_outcome(program_id, accounts, instruction) == Err::<
                Seq<u8>,
                MatcherError,
            >(MatcherError::MissingRequiredSignature)
        },
{
}

/// Two outcomes are the same refusal, and one that does not tell whether the
/// account was set up.
pub open spec fn refused_alike<T>(
    one: Result<T, MatcherError>,
    other: Result<T, MatcherError>,
) -> bool {
    &&& one matches Err(e) && e != MatcherError::UninitializedAccount && e
        != MatcherError::AccountAlreadyInitialized
    &&& one == other
}

} // verus!
