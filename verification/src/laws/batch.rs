//! What holds of a batch of legs.
use vstd::prelude::*;

use crate::abi::{
    MatcherCall, MatcherReturn, CTX_VAMM_OFFSET, MATCHER_ABI_VERSION, MATCHER_CONTEXT_LEN,
    MATCHER_RETURN_LEN,
};
use crate::calls;
use crate::context::{CtxModel, MATCHER_MAGIC};
use crate::error::MatcherError;
use crate::laws::insurance;
use crate::laws::state;
use crate::pricing;
use crate::settlement;

verus! {

/// All legs name plausible prices, and legs on one asset name one price.
pub open spec fn prices_agree(legs: Seq<MatcherCall>) -> bool {
    &&& forall|i: int|
        0 <= i < legs.len() ==> calls::plausible_price((#[trigger] legs[i]).oracle_price_e6)
    &&& forall|i: int, j: int|
        0 <= i < j < legs.len() && (#[trigger] legs[i]).asset_index == (#[trigger] legs[j]).asset_index
            ==> legs[i].oracle_price_e6 == legs[j].oracle_price_e6
}

/// The prices of a batch are accepted exactly where all are plausible and legs on
/// one asset agree.
pub proof fn law_prices_accepted_iff_they_agree(legs: Seq<MatcherCall>)
    ensures
        calls::prices_checked(legs) is Ok <==> prices_agree(legs),
    decreases legs.len(),
{
    if legs.len() > 0 {
        let init = legs.drop_last();
        law_prices_accepted_iff_they_agree(init);
        let n = legs.len() - 1;
        assert(forall|i: int| 0 <= i < n ==> init[i] == #[trigger] legs[i]);
        if calls::prices_checked(legs) is Ok {
            assert forall|i: int, j: int|
                0 <= i < j < legs.len() && (#[trigger] legs[i]).asset_index == (
                #[trigger] legs[j]).asset_index implies legs[i].oracle_price_e6
                == legs[j].oracle_price_e6 by {
                if j < n {
                    assert(init[i] == legs[i] && init[j] == legs[j]);
                } else {
                    assert(!calls::contradicted(legs, n));
                }
            }
            assert forall|i: int| 0 <= i < legs.len() implies calls::plausible_price(
                (#[trigger] legs[i]).oracle_price_e6,
            ) by {
                if i < n {
                    assert(init[i] == legs[i]);
                }
            }
        }
        if prices_agree(legs) {
            assert forall|i: int, j: int|
                0 <= i < j < init.len() && (#[trigger] init[i]).asset_index == (
                #[trigger] init[j]).asset_index implies init[i].oracle_price_e6
                == init[j].oracle_price_e6 by {
                assert(init[i] == legs[i] && init[j] == legs[j]);
            }
            assert(prices_agree(init));
            assert(calls::plausible_price(legs[n].oracle_price_e6));
            assert(!calls::contradicted(legs, n));
        }
    }
}

/// The sum of the sizes that were answered.
pub open spec fn total_size(rets: Seq<MatcherReturn>) -> int
    decreases rets.len(),
{
    if rets.len() == 0 {
        0
    } else {
        total_size(rets.drop_last()) + rets.last().exec_size
    }
}

/// Whether `ret` echoes `leg`.
pub open spec fn echoes(ret: MatcherReturn, leg: MatcherCall) -> bool {
    &&& ret.abi_version == MATCHER_ABI_VERSION
    &&& ret.req_id == leg.req_id
    &&& ret.lp_account_id == leg.lp_account_id
    &&& ret.oracle_price_e6 == leg.oracle_price_e6
    &&& ret.asset_index == leg.asset_index
}

/// The legs of a batch are answered one by one, in order; the state keeps its
/// parameters, its position moves by exactly what was answered, and where it was
/// sound it stays so.
pub proof fn law_legs_answered_in_order(m: CtxModel, legs: Seq<MatcherCall>)
    ensures
        calls::legs_run(m, legs) matches Ok((after, rets)) ==> {
            &&& rets.len() == legs.len()
            &&& forall|i: int| 0 <= i < legs.len() ==> echoes(#[trigger] rets[i], legs[i])
            &&& state::sound(m) ==> state::sound(after)
            &&& settlement::same_parameters(m, after)
            &&& after.inventory_base == m.inventory_base - total_size(rets)
        },
    decreases legs.len(),
{
    if legs.len() > 0 {
        law_legs_answered_in_order(m, legs.drop_last());
        if let Ok((before, rets)) = calls::legs_run(m, legs.drop_last()) {
            let leg = legs.last();
            let start = calls::without_carry(before);
            assert(state::sound(before) ==> state::sound(start));
            state::law_fill_keeps_soundness(start, leg);
            state::law_answer_echoes_call(start, leg);
            if let Ok((after, ret)) = calls::leg_step(before, leg) {
                assert(rets.push(ret).drop_last() =~= rets);
            }
        }
    }
}

/// A batch is filled as a whole or not at all: where some of its first legs cannot
/// be filled, it fails, and with the same error.
pub proof fn law_all_or_nothing(m: CtxModel, legs: Seq<MatcherCall>, k: int)
    requires
        0 <= k <= legs.len(),
    ensures
        calls::legs_run(m, legs) is Ok ==> calls::legs_run(m, legs.take(k)) is Ok,
        calls::legs_run(m, legs.take(k)) is Err ==> calls::legs_run(m, legs) == calls::legs_run(
            m,
            legs.take(k),
        ),
    decreases legs.len(),
{
    if k == legs.len() {
        assert(legs.take(k) =~= legs);
    } else {
        law_all_or_nothing(m, legs.drop_last(), k);
        assert(legs.drop_last().take(k) =~= legs.take(k));
    }
}

/// Filling legs in two batches is filling them in one.
pub proof fn law_batches_compose(m: CtxModel, first: Seq<MatcherCall>, second: Seq<MatcherCall>)
    ensures
        calls::legs_run(m, first + second) == (match calls::legs_run(m, first) {
            Err(e) => Err(e),
            Ok((middle, rets)) => match calls::legs_run(middle, second) {
                Err(e) => Err(e),
                Ok((after, more)) => Ok((after, rets + more)),
            },
        }),
    decreases second.len(),
{
    if second.len() == 0 {
        assert(first + second =~= first);
        if let Ok((middle, rets)) = calls::legs_run(m, first) {
            assert(rets + Seq::<MatcherReturn>::empty() =~= rets);
        }
    } else {
        law_batches_compose(m, first, second.drop_last());
        assert((first + second).drop_last() =~= first + second.drop_last());
        assert((first + second).last() == second.last());
        if let Ok((middle, rets)) = calls::legs_run(m, first) {
            if let Ok((before, more)) = calls::legs_run(middle, second.drop_last()) {
                if let Ok((after, ret)) = calls::leg_step(before, second.last()) {
                    assert((rets + more).push(ret) =~= rets + more.push(ret));
                }
            }
        }
    }
}

/// A batch of one leg does what the single call does on a state that carries no
/// fraction of an insurance fee over; a size that the single call refuses is
/// refused with the same error.
pub proof fn law_single_leg_is_single_call(m: CtxModel, leg: MatcherCall)
    ensures
        calls::legs_run(m, seq![leg]) == (if leg.req_size == i128::MIN {
            Err(MatcherError::InvalidInstructionData)
        } else {
            match settlement::step(calls::without_carry(m), leg) {
                Err(e) => Err(e),
                Ok((after, ret)) => Ok((after, seq![ret])),
            }
        }),
        m.insurance_fee_remainder_e6 == 0 ==> calls::without_carry(m) == m,
{
    let legs = seq![leg];
    assert(legs.drop_last() =~= Seq::<MatcherCall>::empty());
    assert(calls::legs_run(m, legs.drop_last()) == Ok::<
        (CtxModel, Seq<MatcherReturn>),
        MatcherError,
    >((m, Seq::empty())));
    if let Ok((after, ret)) = settlement::step(calls::without_carry(m), leg) {
        assert(Seq::<MatcherReturn>::empty().push(ret) =~= seq![ret]);
    }
}

/// The bytes that a batch returns hold one 64-byte record per leg, in order.
pub proof fn law_returned_bytes(rets: Seq<MatcherReturn>)
    ensures
        calls::encoded_returns(rets).len() == rets.len() * MATCHER_RETURN_LEN,
        forall|i: int|
            0 <= i < rets.len() ==> calls::encoded_returns(rets).subrange(
                i * MATCHER_RETURN_LEN,
                i * MATCHER_RETURN_LEN + MATCHER_RETURN_LEN,
            ) == (#[trigger] rets[i]).encoded(),
    decreases rets.len(),
{
    if rets.len() > 0 {
        let init = rets.drop_last();
        law_returned_bytes(init);
        crate::abi::lemma_return_len(rets.last());
        let all = calls::encoded_returns(rets);
        let front = calls::encoded_returns(init);
        assert forall|i: int| 0 <= i < rets.len() implies all.subrange(
            i * MATCHER_RETURN_LEN,
            i * MATCHER_RETURN_LEN + MATCHER_RETURN_LEN,
        ) == (#[trigger] rets[i]).encoded() by {
            if i < init.len() {
                assert(init[i] == rets[i]);
                assert(all.subrange(
                    i * MATCHER_RETURN_LEN,
                    i * MATCHER_RETURN_LEN + MATCHER_RETURN_LEN,
                ) =~= front.subrange(
                    i * MATCHER_RETURN_LEN,
                    i * MATCHER_RETURN_LEN + MATCHER_RETURN_LEN,
                ));
            } else {
                assert(all.subrange(
                    i * MATCHER_RETURN_LEN,
                    i * MATCHER_RETURN_LEN + MATCHER_RETURN_LEN,
                ) =~= rets.last().encoded());
            }
        }
    }
}

/// A batch that succeeds writes the state after its last leg and leaves the rest of
/// the data alone, the answer in front too; the state reads back, and it returns
/// one record per leg.
pub proof fn law_batch_writes_state(key: Seq<u8>, data: Seq<u8>, instruction: Seq<u8>)
    requires
        data.len() >= CTX_VAMM_OFFSET,
    ensures
        calls::batch_outcome(key, data, instruction) matches Ok((written, returned)) ==> {
            let n = instruction[1] as nat;
            let result = calls::legs_run(state::state_of(data), calls::legs_of(instruction, n));
            &&& result is Ok
            &&& written.len() == data.len() >= MATCHER_CONTEXT_LEN
            &&& written.take(CTX_VAMM_OFFSET as int) == data.take(CTX_VAMM_OFFSET as int)
            &&& written.skip(MATCHER_CONTEXT_LEN as int) == data.skip(MATCHER_CONTEXT_LEN as int)
            &&& state::state_of(written) == result->Ok_0.0
            &&& CtxModel::marked(written.skip(CTX_VAMM_OFFSET as int))
            &&& state::sound(state::state_of(data)) ==> state::sound(state::state_of(written))
            &&& settlement::same_parameters(state::state_of(data), state::state_of(written))
            &&& returned == calls::encoded_returns(result->Ok_0.1)
            &&& returned.len() == n * MATCHER_RETURN_LEN
        },
{
    if let Ok((written, returned)) = calls::batch_outcome(key, data, instruction) {
        let m = state::state_of(data);
        let legs = calls::legs_of(instruction, instruction[1] as nat);
        let (after, rets) = calls::legs_run(m, legs)->Ok_0;
        law_legs_answered_in_order(m, legs);
        law_returned_bytes(rets);
        lemma_batch_written(data, after);
    }
}

/// What a batch writes is read back.
proof fn lemma_batch_written(data: Seq<u8>, after: CtxModel)
    requires
        data.len() >= MATCHER_CONTEXT_LEN,
        state::state_of(data).magic == MATCHER_MAGIC,
        settlement::same_parameters(state::state_of(data), after),
    ensures
        ({
            let written = data.take(CTX_VAMM_OFFSET as int) + after.encoded() + data.skip(
                MATCHER_CONTEXT_LEN as int,
            );
            &&& written.len() == data.len()
            &&& written.take(CTX_VAMM_OFFSET as int) == data.take(CTX_VAMM_OFFSET as int)
            &&& written.skip(MATCHER_CONTEXT_LEN as int) == data.skip(MATCHER_CONTEXT_LEN as int)
            &&& state::state_of(written) == after
            &&& CtxModel::marked(written.skip(CTX_VAMM_OFFSET as int))
        }),
{
    let front = data.take(CTX_VAMM_OFFSET as int);
    let rest = data.skip(MATCHER_CONTEXT_LEN as int);
    state::lemma_decoded_shape(data);
    crate::context::lemma_ctx_len(after);
    state::lemma_state_read_back(front, after, rest);
    state::lemma_skip_front(front, after.encoded(), rest);
}

/// The insurance fees of the answers, each taken by itself.
pub open spec fn fees_of(m: CtxModel, rets: Seq<MatcherReturn>) -> int
    decreases rets.len(),
{
    if rets.len() == 0 {
        0
    } else {
        fees_of(m, rets.drop_last()) + pricing::insurance_fee(
            calls::without_carry(m),
            rets.last().exec_size as int,
            rets.last().exec_price_e6 as int,
        )
    }
}

/// Every leg of a batch accrues its own insurance fee; no leg adds to another's.
pub proof fn law_legs_accrue_by_themselves(m: CtxModel, legs: Seq<MatcherCall>)
    ensures
        calls::legs_run(m, legs) matches Ok((after, rets)) ==> {
            &&& after.insurance_accrued_e6 == m.insurance_accrued_e6 + fees_of(m, rets)
            &&& settlement::same_parameters(m, after)
        },
    decreases legs.len(),
{
    if legs.len() > 0 {
        law_legs_accrue_by_themselves(m, legs.drop_last());
        if let Ok((before, rets)) = calls::legs_run(m, legs.drop_last()) {
            let leg = legs.last();
            let start = calls::without_carry(before);
            settlement::lemma_step_keeps_parameters(start, leg);
            if let Ok((after, ret)) = calls::leg_step(before, leg) {
                let size = ret.exec_size as int;
                let price = ret.exec_price_e6 as int;
                assert(rets.push(ret).drop_last() =~= rets);
                insurance::lemma_exact_range(start, size, price);
                assert(pricing::insurance_exact(start, size, price) == pricing::insurance_exact(
                    calls::without_carry(m),
                    size,
                    price,
                ));
            }
        }
    }
}

} // verus!
