//! What holds across instructions on one context account.
use vstd::prelude::*;

use crate::abi::CTX_VAMM_OFFSET;
use crate::account::Account;
use crate::context::CtxModel;
use crate::error::MatcherError;
use crate::laws::batch;
use crate::laws::state;
use crate::processor;
use crate::settlement;

verus! {

/// A context account that was never set up, or whose state is sound.
pub open spec fn account_sound(data: Seq<u8>) -> bool {
    CtxModel::marked(data.skip(CTX_VAMM_OFFSET as int)) ==> state::sound(state::state_of(data))
}

/// Every instruction that succeeds leaves the context account set up and as long as
/// it was; on an account that was set up before, it changes no parameter. An account
/// that was never set up, or whose state was sound, has a sound state after it.
pub proof fn law_instructions_keep_soundness(
    program_id: Seq<u8>,
    accounts: Seq<Account>,
    instruction: Seq<u8>,
)
    ensures
        processor::instruction_outcome(program_id, accounts, instruction) matches Ok((data, _))
            ==> {
            &&& data.len() == accounts[1].data@.len()
            &&& CtxModel::marked(data.skip(CTX_VAMM_OFFSET as int))
            &&& processor::initialized(accounts) ==> settlement::same_parameters(
                state::state_of(accounts[1].data@),
                state::state_of(data),
            )
            &&& account_sound(accounts[1].data@) ==> state::sound(state::state_of(data))
        },
{
    if processor::instruction_outcome(program_id, accounts, instruction) is Ok {
        let key = accounts[0].key@;
        let before = accounts[1].data@;
        state::law_accounts_in_order(program_id, accounts, instruction);
        state::law_init_writes_state(program_id, accounts, instruction);
        state::law_call_writes_state(key, before, instruction);
        batch::law_batch_writes_state(key, before, instruction);
    }
}

/// Whoever set up the context account is the only one whose calls it takes: the
/// next instruction with another key fails.
pub proof fn law_only_the_initializer_calls(
    program_id: Seq<u8>,
    accounts: Seq<Account>,
    instruction: Seq<u8>,
    later: Seq<Account>,
    later_instruction: Seq<u8>,
)
    requires
        later.len() >= 2,
        processor::init_outcome(program_id, accounts, instruction) == Ok::<
            Seq<u8>,
            MatcherError,
        >(later[1].data@),
        later[0].key@ != accounts[0].key@,
    ensures
        processor::instruction_outcome(program_id, later, later_instruction) is Err,
{
    state::law_init_writes_state(program_id, accounts, instruction);
    state::law_one_time_init(program_id, accounts, instruction, later, later_instruction);
    state::law_provider_binding(later[0].key@, later[1].data@, later_instruction);
}

/// The provider that a context account is bound to never changes.
pub proof fn law_binding_is_permanent(
    program_id: Seq<u8>,
    accounts: Seq<Account>,
    instruction: Seq<u8>,
)
    requires
        processor::initialized(accounts),
    ensures
        processor::instruction_outcome(program_id, accounts, instruction) matches Ok((data, _))
            ==> {
            &&& state::state_of(data).lp_pda == state::state_of(accounts[1].data@).lp_pda
            &&& accounts[0].key@ == state::state_of(accounts[1].data@).lp_pda
        },
{
    law_instructions_keep_soundness(program_id, accounts, instruction);
    if processor::instruction_outcome(program_id, accounts, instruction) is Ok {
        state::law_accounts_in_order(program_id, accounts, instruction);
        state::law_provider_binding(accounts[0].key@, accounts[1].data@, instruction);
    }
}

} // verus!
