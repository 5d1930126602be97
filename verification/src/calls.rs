//! Calls on one provider's context account: a single fill, or several legs that
//! are filled together or not at all.
use vstd::prelude::*;

use crate::abi::{
    MatcherCall, MatcherReturn, CTX_VAMM_OFFSET, ERR_INCONSISTENT_LEG_ORACLE_PRICE,
    MATCHER_BATCH_HEADER_LEN, MATCHER_BATCH_LEG_LEN, MATCHER_BATCH_MAX_LEGS, MATCHER_CONTEXT_LEN,
    ORACLE_PRICE_E6_MAX,
};
use crate::account;
use crate::account::Account;
use crate::bytes;
use crate::context::{CtxModel, MatcherCtx};
use crate::error::MatcherError;
use crate::settlement;

verus! {

/// Whether an oracle price can come from a real feed.
pub open spec fn plausible_price(price: u64) -> bool {
    0 < price <= ORACLE_PRICE_E6_MAX
}

/// The state that a provider's call works on, once it is clear that the state is
/// sound, that the provider is the one it belongs to, and that the number in the
/// call is the provider's.
pub open spec fn admitted(key: Seq<u8>, data: Seq<u8>, lp_account_id: u64) -> Result<
    CtxModel,
    MatcherError,
> {
    match CtxModel::stored(data.skip(CTX_VAMM_OFFSET as int)) {
        Err(e) => Err(e),
        Ok(m) => match m.validation() {
            Err(e) => Err(e),
            Ok(_) => if key != m.lp_pda {
                Err(MatcherError::InvalidAccountData)
            } else if m.lp_account_id != 0 && lp_account_id != m.lp_account_id {
                Err(MatcherError::InvalidInstructionData)
            } else {
                Ok(m)
            },
        },
    }
}

/// What a single call makes of the context account's data: the answer, the new
/// state, and whatever follows them.
pub open spec fn call_outcome(key: Seq<u8>, data: Seq<u8>, instruction: Seq<u8>) -> Result<
    Seq<u8>,
    MatcherError,
> {
    match MatcherCall::parsed(instruction) {
        Err(e) => Err(e),
        Ok(call) => if !plausible_price(call.oracle_price_e6) || call.req_size == i128::MIN {
            Err(MatcherError::InvalidInstructionData)
        } else {
            match admitted(key, data, call.lp_account_id) {
                Err(e) => Err(e),
                Ok(m) => match settlement::step(m, call) {
                    Err(e) => Err(e),
                    Ok((after, ret)) => Ok(
                        ret.encoded() + after.encoded() + data.skip(MATCHER_CONTEXT_LEN as int),
                    ),
                },
            }
        },
    }
}

/// Whether `after` is `before` with `data` in place of its data.
pub open spec fn rewritten(before: Account, after: Account, data: Seq<u8>) -> bool {
    &&& after.key == before.key
    &&& after.owner == before.owner
    &&& after.is_signer == before.is_signer
    &&& after.is_writable == before.is_writable
    &&& after.data@ == data
}

/// Reads the state for a call of `lp_pda` and checks that the call may use it.
fn load(lp_pda: &Account, ctx_account: &Account, lp_account_id: u64) -> (r: Result<
    MatcherCtx,
    MatcherError,
>)
    requires
        ctx_account.data@.len() >= CTX_VAMM_OFFSET,
    ensures
        r is Ok <==> admitted(lp_pda.key@, ctx_account.data@, lp_account_id) is Ok,
        r matches Ok(ctx) ==> {
            &&& ctx@ == admitted(lp_pda.key@, ctx_account.data@, lp_account_id)->Ok_0
            &&& ctx@.valid()
            &&& ctx_account.data@.len() >= MATCHER_CONTEXT_LEN
        },
        r matches Err(e) ==> admitted(lp_pda.key@, ctx_account.data@, lp_account_id) == Err::<
            CtxModel,
            MatcherError,
        >(e),
{
    let state: &[u8] = state_bytes(ctx_account);
    let ctx: MatcherCtx = MatcherCtx::read_from(state)?;
    ctx.validate()?;
    if !account::same_bytes(&lp_pda.key, &ctx.lp_pda) {
        return Err(MatcherError::InvalidAccountData);
    }
    if ctx.lp_account_id != 0 && lp_account_id != ctx.lp_account_id {
        return Err(MatcherError::InvalidInstructionData);
    }
    Ok(ctx)
}

/// What follows the answer in the account's data.
pub(crate) fn state_bytes(ctx_account: &Account) -> (r: &[u8])
    requires
        ctx_account.data@.len() >= CTX_VAMM_OFFSET,
    ensures
        r@ == ctx_account.data@.skip(CTX_VAMM_OFFSET as int),
{
    let data: &[u8] = ctx_account.data.as_slice();
    vstd::slice::slice_subrange(data, CTX_VAMM_OFFSET, data.len())
}

/// Writes the state behind the answer.
pub(crate) fn store(ctx_account: &mut Account, ctx: &MatcherCtx)
    requires
        old(ctx_account).data@.len() >= MATCHER_CONTEXT_LEN,
    ensures
        rewritten(
            *old(ctx_account),
            *final(ctx_account),
            old(ctx_account).data@.take(CTX_VAMM_OFFSET as int) + ctx@.encoded() + old(
                ctx_account,
            ).data@.skip(MATCHER_CONTEXT_LEN as int),
        ),
{
    let out: Vec<u8> = ctx.to_bytes();
    bytes::overwrite(ctx_account.data.as_mut_slice(), CTX_VAMM_OFFSET, out.as_slice());
}

/// Fills one request against the provider's inventory: writes the new state and,
/// in front of it, the answer. A refused call changes nothing. A malformed call is
/// refused before the account is looked at, whatever it holds.
pub fn process_call(lp_pda: &Account, ctx_account: &mut Account, instruction_data: &[u8]) -> (r:
    Result<(), MatcherError>)
    requires
        MatcherCall::parsed(instruction_data@) matches Ok(call) ==> plausible_price(
            call.oracle_price_e6,
        ) && call.req_size != i128::MIN ==> old(ctx_account).data@.len() >= CTX_VAMM_OFFSET,
    ensures
        match call_outcome(lp_pda.key@, old(ctx_account).data@, instruction_data@) {
            Ok(data) => r is Ok && rewritten(*old(ctx_account), *final(ctx_account), data),
            Err(e) => r == Err::<(), MatcherError>(e) && *final(ctx_account) == *old(ctx_account),
        },
{
    let call: MatcherCall = MatcherCall::parse(instruction_data)?;
    if call.oracle_price_e6 == 0 {
        return Err(MatcherError::InvalidInstructionData);
    }
    if call.oracle_price_e6 > ORACLE_PRICE_E6_MAX {
        return Err(MatcherError::InvalidInstructionData);
    }
    if call.req_size == i128::MIN {
        return Err(MatcherError::InvalidInstructionData);
    }
    let ctx: MatcherCtx = load(lp_pda, ctx_account, call.lp_account_id)?;
    let (after, ret): (MatcherCtx, MatcherReturn) = settlement::fill(&ctx, &call)?;
    store(ctx_account, &after);
    let out: Vec<u8> = ret.to_bytes();
    bytes::overwrite(ctx_account.data.as_mut_slice(), 0, out.as_slice());
    proof {
        crate::context::lemma_ctx_len(after@);
        assert(ctx_account.data@ =~= ret.encoded() + after@.encoded() + old(
            ctx_account,
        ).data@.skip(MATCHER_CONTEXT_LEN as int));
    }
    Ok(())
}

/// Whether the instruction holds as many legs as its header says, one at least.
pub open spec fn batch_shaped(instruction: Seq<u8>) -> bool {
    &&& instruction.len() >= MATCHER_BATCH_HEADER_LEN
    &&& 1 <= instruction[1] <= MATCHER_BATCH_MAX_LEGS
    &&& instruction.len() == MATCHER_BATCH_HEADER_LEN + instruction[1] * MATCHER_BATCH_LEG_LEN
}

/// Leg `i` of a batch as a call of its own.
pub open spec fn leg_at(instruction: Seq<u8>, i: int) -> MatcherCall {
    let base = MATCHER_BATCH_HEADER_LEN + i * MATCHER_BATCH_LEG_LEN;
    MatcherCall {
        req_id: bytes::u64_at(instruction, 2),
        asset_index: bytes::u16_at(instruction, base),
        lp_account_id: bytes::u64_at(instruction, 10),
        oracle_price_e6: bytes::u64_at(instruction, base + 2),
        req_size: bytes::i128_at(instruction, base + 10),
    }
}

/// The first `n` legs of a batch.
pub open spec fn legs_of(instruction: Seq<u8>, n: nat) -> Seq<MatcherCall> {
    Seq::new(n, |i: int| leg_at(instruction, i))
}

/// Whether an earlier leg names the asset of leg `i` at another price.
pub open spec fn contradicted(legs: Seq<MatcherCall>, i: int) -> bool {
    exists|j: int|
        0 <= j < i && #[trigger] legs[j].asset_index == legs[i].asset_index
            && legs[j].oracle_price_e6 != legs[i].oracle_price_e6
}

/// The first thing wrong with the prices of a batch, going through the legs in
/// order.
pub open spec fn prices_checked(legs: Seq<MatcherCall>) -> Result<(), MatcherError>
    decreases legs.len(),
{
    if legs.len() == 0 {
        Ok(())
    } else {
        match prices_checked(legs.drop_last()) {
            Err(e) => Err(e),
            Ok(_) => if !plausible_price(legs.last().oracle_price_e6) {
                Err(MatcherError::InvalidInstructionData)
            } else if contradicted(legs, legs.len() - 1) {
                Err(MatcherError::Custom(ERR_INCONSISTENT_LEG_ORACLE_PRICE))
            } else {
                Ok(())
            },
        }
    }
}

/// The state with no fraction of an insurance fee carried over.
pub open spec fn without_carry(m: CtxModel) -> CtxModel {
    CtxModel { insurance_fee_remainder_e6: 0, ..m }
}

/// What one leg does. No fraction of an insurance fee is carried into it.
pub open spec fn leg_step(m: CtxModel, leg: MatcherCall) -> Result<
    (CtxModel, MatcherReturn),
    MatcherError,
> {
    if leg.req_size == i128::MIN {
        Err(MatcherError::InvalidInstructionData)
    } else {
        settlement::step(without_carry(m), leg)
    }
}

/// What the legs do, one after the other on the same state: the state after the
/// last, and their answers.
pub open spec fn legs_run(m: CtxModel, legs: Seq<MatcherCall>) -> Result<
    (CtxModel, Seq<MatcherReturn>),
    MatcherError,
>
    decreases legs.len(),
{
    if legs.len() == 0 {
        Ok((m, Seq::empty()))
    } else {
        match legs_run(m, legs.drop_last()) {
            Err(e) => Err(e),
            Ok((before, rets)) => match leg_step(before, legs.last()) {
                Err(e) => Err(e),
                Ok((after, ret)) => Ok((after, rets.push(ret))),
            },
        }
    }
}

/// The answers of a batch, back to back.
pub open spec fn encoded_returns(rets: Seq<MatcherReturn>) -> Seq<u8>
    decreases rets.len(),
{
    if rets.len() == 0 {
        Seq::empty()
    } else {
        encoded_returns(rets.drop_last()) + rets.last().encoded()
    }
}

/// What a batch makes of the context account's data, and the bytes it returns. The
/// answer at the front of the data stays what it was.
pub open spec fn batch_outcome(key: Seq<u8>, data: Seq<u8>, instruction: Seq<u8>) -> Result<
    (Seq<u8>, Seq<u8>),
    MatcherError,
> {
    if !batch_shaped(instruction) {
        Err(MatcherError::InvalidInstructionData)
    } else {
        let legs = legs_of(instruction, instruction[1] as nat);
        match admitted(key, data, bytes::u64_at(instruction, 10)) {
            Err(e) => Err(e),
            Ok(m) => match prices_checked(legs) {
                Err(e) => Err(e),
                Ok(_) => match legs_run(m, legs) {
                    Err(e) => Err(e),
                    Ok((after, rets)) => Ok(
                        (
                            data.take(CTX_VAMM_OFFSET as int) + after.encoded() + data.skip(
                                MATCHER_CONTEXT_LEN as int,
                            ),
                            encoded_returns(rets),
                        ),
                    ),
                },
            },
        }
    }
}

/// Once a leg fails, no later leg changes the outcome.
proof fn lemma_legs_fail_early(m: CtxModel, instruction: Seq<u8>, k: nat, n: nat)
    requires
        k <= n,
        legs_run(m, legs_of(instruction, k)) is Err,
    ensures
        legs_run(m, legs_of(instruction, n)) == legs_run(m, legs_of(instruction, k)),
    decreases n - k,
{
    if k < n {
        lemma_legs_fail_early(m, instruction, k, (n - 1) as nat);
        assert(legs_of(instruction, n).drop_last() =~= legs_of(instruction, (n - 1) as nat));
    }
}

/// Once a price is refused, no later leg changes the outcome.
pub(crate) proof fn lemma_prices_fail_early(instruction: Seq<u8>, k: nat, n: nat)
    requires
        k <= n,
        prices_checked(legs_of(instruction, k)) is Err,
    ensures
        prices_checked(legs_of(instruction, n)) == prices_checked(legs_of(instruction, k)),
    decreases n - k,
{
    if k < n {
        lemma_prices_fail_early(instruction, k, (n - 1) as nat);
        assert(legs_of(instruction, n).drop_last() =~= legs_of(instruction, (n - 1) as nat));
    }
}

/// Reads leg `i`.
fn read_leg(instruction_data: &[u8], i: usize) -> (r: MatcherCall)
    requires
        batch_shaped(instruction_data@),
        i < instruction_data@[1],
    ensures
        r == leg_at(instruction_data@, i as int),
{
    let base: usize = MATCHER_BATCH_HEADER_LEN + i * MATCHER_BATCH_LEG_LEN;
    MatcherCall {
        req_id: bytes::read_u64(instruction_data, 2),
        asset_index: bytes::read_u16(instruction_data, base),
        lp_account_id: bytes::read_u64(instruction_data, 10),
        oracle_price_e6: bytes::read_u64(instruction_data, base + 2),
        req_size: bytes::read_i128(instruction_data, base + 10),
    }
}

/// Whether an earlier leg names the asset of leg `i` at another price.
fn is_contradicted(instruction_data: &[u8], i: usize, leg: &MatcherCall) -> (r: bool)
    requires
        batch_shaped(instruction_data@),
        i < instruction_data@[1],
        *leg == leg_at(instruction_data@, i as int),
    ensures
        r == contradicted(legs_of(instruction_data@, (i + 1) as nat), i as int),
{
    let ghost legs = legs_of(instruction_data@, (i + 1) as nat);
    let mut j: usize = 0;
    while j < i
        invariant
            j <= i,
            batch_shaped(instruction_data@),
            i < instruction_data@[1],
            legs == legs_of(instruction_data@, (i + 1) as nat),
            *leg == legs[i as int],
            forall|k: int|
                0 <= k < j && #[trigger] legs[k].asset_index == leg.asset_index
                    ==> legs[k].oracle_price_e6 == leg.oracle_price_e6,
        decreases i - j,
    {
        let earlier: MatcherCall = read_leg(instruction_data, j);
        assert(earlier == legs[j as int]);
        if earlier.asset_index == leg.asset_index && earlier.oracle_price_e6
            != leg.oracle_price_e6 {
            return true;
        }
        j = j + 1;
    }
    false
}

/// Checks the prices of all legs before any leg is filled.
fn check_prices(instruction_data: &[u8]) -> (r: Result<(), MatcherError>)
    requires
        batch_shaped(instruction_data@),
    ensures
        r == prices_checked(legs_of(instruction_data@, instruction_data@[1] as nat)),
{
    let n: usize = instruction_data[1] as usize;
    let ghost instruction = instruction_data@;
    let mut i: usize = 0;
    while i < n
        invariant
            i <= n,
            n == instruction_data@[1],
            instruction == instruction_data@,
            batch_shaped(instruction_data@),
            prices_checked(legs_of(instruction, i as nat)) is Ok,
        decreases n - i,
    {
        let leg: MatcherCall = read_leg(instruction_data, i);
        let ghost so_far = legs_of(instruction, (i + 1) as nat);
        proof {
            assert(so_far.drop_last() =~= legs_of(instruction, i as nat));
            assert(so_far.last() == leg);
        }
        if leg.oracle_price_e6 == 0 || leg.oracle_price_e6 > ORACLE_PRICE_E6_MAX {
            proof {
                lemma_prices_fail_early(instruction, (i + 1) as nat, n as nat);
            }
            return Err(MatcherError::InvalidInstructionData);
        }
        if is_contradicted(instruction_data, i, &leg) {
            proof {
                lemma_prices_fail_early(instruction, (i + 1) as nat, n as nat);
            }
            return Err(MatcherError::Custom(ERR_INCONSISTENT_LEG_ORACLE_PRICE));
        }
        i = i + 1;
    }
    Ok(())
}

/// Fills the legs in order on `ctx` and gives the state after the last, with the
/// answers back to back.
fn fill_legs(ctx: &MatcherCtx, instruction_data: &[u8]) -> (r: Result<
    (MatcherCtx, Vec<u8>),
    MatcherError,
>)
    requires
        batch_shaped(instruction_data@),
        ctx@.valid(),
    ensures
        match legs_run(ctx@, legs_of(instruction_data@, instruction_data@[1] as nat)) {
            Ok((after, rets)) => r is Ok && r->Ok_0.0@ == after && r->Ok_0.1@ == encoded_returns(
                rets,
            ),
            Err(e) => r == Err::<(MatcherCtx, Vec<u8>), MatcherError>(e),
        },
{
    let n: usize = instruction_data[1] as usize;
    let ghost instruction = instruction_data@;
    let mut current: MatcherCtx = *ctx;
    let mut answers: Vec<u8> = Vec::new();
    let mut i: usize = 0;
    while i < n
        invariant
            i <= n,
            n == instruction_data@[1],
            instruction == instruction_data@,
            batch_shaped(instruction_data@),
            current@.valid(),
            legs_run(ctx@, legs_of(instruction, i as nat)) is Ok,
            legs_run(ctx@, legs_of(instruction, i as nat))->Ok_0.0 == current@,
            encoded_returns(legs_run(ctx@, legs_of(instruction, i as nat))->Ok_0.1) == answers@,
        decreases n - i,
    {
        let ghost before = current@;
        let leg: MatcherCall = read_leg(instruction_data, i);
        let ghost so_far = legs_of(instruction, (i + 1) as nat);
        proof {
            assert(so_far.drop_last() =~= legs_of(instruction, i as nat));
            assert(so_far.last() == leg);
        }
        if leg.req_size == i128::MIN {
            proof {
                lemma_legs_fail_early(ctx@, instruction, (i + 1) as nat, n as nat);
            }
            return Err(MatcherError::InvalidInstructionData);
        }
        current.insurance_fee_remainder_e6 = 0;
        proof {
            assert(current@ == without_carry(before));
            settlement::lemma_valid_is_executable(current@, leg);
            settlement::lemma_step_keeps_parameters(current@, leg);
        }
        match settlement::fill(&current, &leg) {
            Ok((after, ret)) => {
                let out: Vec<u8> = ret.to_bytes();
                bytes::push_bytes(&mut answers, out.as_slice());
                proof {
                    let rets = legs_run(ctx@, legs_of(instruction, i as nat))->Ok_0.1;
                    assert(rets.push(ret).drop_last() =~= rets);
                }
                current = after;
            },
            Err(e) => {
                proof {
                    lemma_legs_fail_early(ctx@, instruction, (i + 1) as nat, n as nat);
                }
                return Err(e);
            },
        }
        i = i + 1;
    }
    Ok((current, answers))
}

/// Fills the legs of a batch against the provider's inventory and returns their
/// answers, back to back: all legs, or none. A refused batch changes nothing. A
/// malformed batch is refused before the account is looked at, whatever it holds.
pub fn process_batch_call(
    lp_pda: &Account,
    ctx_account: &mut Account,
    instruction_data: &[u8],
) -> (r: Result<Vec<u8>, MatcherError>)
    requires
        batch_shaped(instruction_data@) ==> old(ctx_account).data@.len() >= CTX_VAMM_OFFSET,
    ensures
        match batch_outcome(lp_pda.key@, old(ctx_account).data@, instruction_data@) {
            Ok((data, returned)) => {
                &&& r is Ok
                &&& r->Ok_0@ == returned
                &&& rewritten(*old(ctx_account), *final(ctx_account), data)
            },
            Err(e) => {
                &&& r == Err::<Vec<u8>, MatcherError>(e)
                &&& *final(ctx_account) == *old(ctx_account)
            },
        },
{
    if instruction_data.len() < MATCHER_BATCH_HEADER_LEN {
        return Err(MatcherError::InvalidInstructionData);
    }
    let n: usize = instruction_data[1] as usize;
    if n == 0 || n > MATCHER_BATCH_MAX_LEGS || instruction_data.len() != MATCHER_BATCH_HEADER_LEN + n
        * MATCHER_BATCH_LEG_LEN {
        return Err(MatcherError::InvalidInstructionData);
    }
    let lp_account_id: u64 = bytes::read_u64(instruction_data, 10);
    let ctx: MatcherCtx = load(lp_pda, ctx_account, lp_account_id)?;
    check_prices(instruction_data)?;
    let (after, answers): (MatcherCtx, Vec<u8>) = fill_legs(&ctx, instruction_data)?;
    store(ctx_account, &after);
    Ok(answers)
}

} // verus!
