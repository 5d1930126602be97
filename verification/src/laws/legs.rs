//! What a batch does, from the bytes that go in to the bytes that come out.
use vstd::prelude::*;

use crate::abi::{MatcherCall, MatcherReturn, ERR_INCONSISTENT_LEG_ORACLE_PRICE};
use crate::bytes;
use crate::calls;
use crate::context::CtxModel;
use crate::error::MatcherError;
use crate::laws::batch;
use crate::laws::meaning;
use crate::laws::state;
use crate::laws::terms;
use crate::laws::wire;
use crate::settlement;

verus! {

/// Whether the bytes are a batch of `n` legs: an 18-byte header that says so, and 26
/// bytes for each leg.
pub open spec fn holds_legs(instruction: Seq<u8>, n: int) -> bool {
    &&& 1 <= n <= 16
    &&& instruction.len() == 18 + 26 * n
    &&& instruction[1] == n
}

/// Leg `i` of a batch, field by field. Number and request id are the header's.
pub open spec fn leg_in(instruction: Seq<u8>, i: int) -> MatcherCall {
    MatcherCall {
        req_id: wire::le8(instruction, 2) as u64,
        asset_index: wire::le2(instruction, 18 + 26 * i) as u16,
        lp_account_id: wire::le8(instruction, 10) as u64,
        oracle_price_e6: wire::le8(instruction, 18 + 26 * i + 2) as u64,
        req_size: wire::signed16(instruction, 18 + 26 * i + 10) as i128,
    }
}

/// Whether leg `i` names a price that no feed gives.
pub open spec fn price_implausible(instruction: Seq<u8>, i: int) -> bool {
    wire::le8(instruction, 18 + 26 * i + 2) == 0 || wire::le8(instruction, 18 + 26 * i + 2)
        > 1_000_000_000_000_000
}

/// Whether legs `j` and `i` name one asset at two prices.
pub open spec fn prices_clash(instruction: Seq<u8>, j: int, i: int) -> bool {
    &&& wire::le2(instruction, 18 + 26 * j) == wire::le2(instruction, 18 + 26 * i)
    &&& wire::le8(instruction, 18 + 26 * j + 2) != wire::le8(instruction, 18 + 26 * i + 2)
}

/// Whether the first `n` legs name plausible prices, one for each asset.
pub open spec fn prices_in_order(instruction: Seq<u8>, n: int) -> bool {
    &&& forall|i: int| 0 <= i < n ==> !price_implausible(instruction, i)
    &&& forall|j: int, i: int| 0 <= j < i < n ==> !prices_clash(instruction, j, i)
}

/// Where a leg's numbers stand: request id and provider's number in the header, for
/// all legs alike, then asset, price and size in 26 bytes of its own.
pub proof fn law_leg_on_the_wire(instruction: Seq<u8>, i: int)
    requires
        0 <= i,
        18 + 26 * i + 26 <= instruction.len(),
    ensures
        calls::leg_at(instruction, i).req_id == wire::le8(instruction, 2),
        calls::leg_at(instruction, i).lp_account_id == wire::le8(instruction, 10),
        calls::leg_at(instruction, i).asset_index == wire::le2(instruction, 18 + 26 * i),
        calls::leg_at(instruction, i).oracle_price_e6 == wire::le8(instruction, 18 + 26 * i + 2),
        calls::leg_at(instruction, i).req_size == wire::signed16(instruction, 18 + 26 * i + 10),
{
    wire::law_integers_on_the_wire(instruction, 2);
    wire::law_integers_on_the_wire(instruction, 10);
    wire::law_integers_on_the_wire(instruction, 18 + 26 * i);
    wire::law_integers_on_the_wire(instruction, 18 + 26 * i + 2);
    wire::law_integers_on_the_wire(instruction, 18 + 26 * i + 10);
}

/// The legs that the library reads are those in the bytes.
proof fn lemma_legs(instruction: Seq<u8>, n: int)
    requires
        holds_legs(instruction, n),
    ensures
        calls::batch_shaped(instruction),
        calls::legs_of(instruction, n as nat).len() == n,
        forall|i: int|
            0 <= i < n ==> #[trigger] calls::legs_of(instruction, n as nat)[i] == leg_in(
                instruction,
                i,
            ),
        bytes::u64_at(instruction, 10) == wire::le8(instruction, 10),
{
    wire::law_integers_on_the_wire(instruction, 10);
    assert forall|i: int| 0 <= i < n implies #[trigger] calls::legs_of(
        instruction,
        n as nat,
    )[i] == leg_in(instruction, i) by {
        law_leg_on_the_wire(instruction, i);
    }
}

/// The prices of a batch in terms of its bytes.
proof fn lemma_prices(instruction: Seq<u8>, n: int)
    requires
        holds_legs(instruction, n),
    ensures
        calls::prices_checked(calls::legs_of(instruction, n as nat)) is Ok <==> prices_in_order(
            instruction,
            n,
        ),
{
    let legs = calls::legs_of(instruction, n as nat);
    lemma_legs(instruction, n);
    batch::law_prices_accepted_iff_they_agree(legs);
    if prices_in_order(instruction, n) {
        assert forall|i: int| 0 <= i < n implies calls::plausible_price(
            (#[trigger] legs[i]).oracle_price_e6,
        ) by {
            assert(!price_implausible(instruction, i));
        }
        assert forall|i: int, j: int|
            0 <= i < j < n && (#[trigger] legs[i]).asset_index == (
            #[trigger] legs[j]).asset_index implies legs[i].oracle_price_e6
            == legs[j].oracle_price_e6 by {
            assert(!prices_clash(instruction, i, j));
        }
    }
    if batch::prices_agree(legs) {
        assert forall|i: int| 0 <= i < n implies !price_implausible(instruction, i) by {
            assert(calls::plausible_price(legs[i].oracle_price_e6));
        }
        assert forall|j: int, i: int| 0 <= j < i < n implies !prices_clash(instruction, j, i) by {
            assert(legs[j] == leg_in(instruction, j) && legs[i] == leg_in(instruction, i));
        }
    }
}

/// A batch is refused before any leg is filled where its bytes are no batch, where
/// the provider may not use the account, and where prices are not in order: the
/// first leg in the way decides which error that is.
pub proof fn law_batch_refused_early(key: Seq<u8>, data: Seq<u8>, instruction: Seq<u8>, i: int)
    requires
        data.len() >= 64,
    ensures
        ({
            let n = instruction[1] as int;
            let outcome = calls::batch_outcome(key, data, instruction);
            let refusal = meaning::state_refusal(key, data, wire::le8(instruction, 10));
            if instruction.len() < 2 || !holds_legs(instruction, n) {
                outcome == Err::<(Seq<u8>, Seq<u8>), MatcherError>(
                    MatcherError::InvalidInstructionData,
                )
            } else if refusal is Some {
                outcome == Err::<(Seq<u8>, Seq<u8>), MatcherError>(refusal->Some_0)
            } else {
                &&& outcome is Ok ==> prices_in_order(instruction, n)
                &&& 0 <= i < n && prices_in_order(instruction, i) ==> {
                    &&& price_implausible(instruction, i) ==> outcome == Err::<
                        (Seq<u8>, Seq<u8>),
                        MatcherError,
                    >(MatcherError::InvalidInstructionData)
                    &&& !price_implausible(instruction, i) && (exists|j: int|
                        0 <= j < i && prices_clash(instruction, j, i)) ==> outcome == Err::<
                        (Seq<u8>, Seq<u8>),
                        MatcherError,
                    >(MatcherError::Custom(ERR_INCONSISTENT_LEG_ORACLE_PRICE))
                }
            }
        }),
{
    let n = instruction[1] as int;
    if instruction.len() >= 2 && holds_legs(instruction, n) {
        let legs = calls::legs_of(instruction, n as nat);
        lemma_legs(instruction, n);
        lemma_prices(instruction, n);
        meaning::law_who_may_use_an_account(key, data, bytes::u64_at(instruction, 10));
        if 0 <= i < n && prices_in_order(instruction, i) {
            lemma_first_price(instruction, n, i);
        }
    }
}

/// The first leg in the way decides how the prices are refused.
proof fn lemma_first_price(instruction: Seq<u8>, n: int, i: int)
    requires
        holds_legs(instruction, n),
        0 <= i < n,
        prices_in_order(instruction, i),
    ensures
        ({
            let checked = calls::prices_checked(calls::legs_of(instruction, n as nat));
            &&& price_implausible(instruction, i) ==> checked == Err::<(), MatcherError>(
                MatcherError::InvalidInstructionData,
            )
            &&& !price_implausible(instruction, i) && (exists|j: int|
                0 <= j < i && prices_clash(instruction, j, i)) ==> checked == Err::<
                (),
                MatcherError,
            >(MatcherError::Custom(ERR_INCONSISTENT_LEG_ORACLE_PRICE))
        }),
{
    let legs = calls::legs_of(instruction, n as nat);
    let before = calls::legs_of(instruction, i as nat);
    let upto = calls::legs_of(instruction, (i + 1) as nat);
    lemma_legs(instruction, n);
    assert(forall|k: int| 0 <= k <= i ==> #[trigger] upto[k] == legs[k]);
    assert(forall|k: int| 0 <= k < i ==> #[trigger] before[k] == legs[k]);
    assert(upto.drop_last() =~= before);
    batch::law_prices_accepted_iff_they_agree(before);
    assert forall|k: int| 0 <= k < i implies calls::plausible_price(
        (#[trigger] before[k]).oracle_price_e6,
    ) by {
        assert(before[k] == leg_in(instruction, k));
        assert(!price_implausible(instruction, k));
    }
    assert forall|k: int, j: int|
        0 <= k < j < i && (#[trigger] before[k]).asset_index == (
        #[trigger] before[j]).asset_index implies before[k].oracle_price_e6
        == before[j].oracle_price_e6 by {
        assert(before[k] == leg_in(instruction, k) && before[j] == leg_in(instruction, j));
        assert(!prices_clash(instruction, k, j));
    }
    assert(batch::prices_agree(before));
    assert(upto.last() == leg_in(instruction, i));
    if price_implausible(instruction, i) {
        calls::lemma_prices_fail_early(instruction, (i + 1) as nat, n as nat);
    } else if exists|j: int| 0 <= j < i && prices_clash(instruction, j, i) {
        let j = choose|j: int| 0 <= j < i && prices_clash(instruction, j, i);
        assert(upto[j] == leg_in(instruction, j));
        assert(upto[j].asset_index == upto[i].asset_index);
        assert(calls::contradicted(upto, i));
        calls::lemma_prices_fail_early(instruction, (i + 1) as nat, n as nat);
    }
}

/// The position before leg `i`: what the account held, less what the legs before it
/// were answered.
pub open spec fn position_before(data: Seq<u8>, returned: Seq<u8>, i: int) -> int
    decreases i,
{
    if i <= 0 {
        wire::signed16(data, 160)
    } else {
        position_before(data, returned, i - 1) - wire::signed16(returned, 64 * (i - 1) + 16)
    }
}

/// A state with another position.
pub open spec fn at_position(m: CtxModel, inventory: int) -> CtxModel {
    CtxModel { inventory_base: inventory as i128, ..m }
}

/// The legs of a batch, each answered on the position that the ones before it left.
proof fn lemma_legs_right(m: CtxModel, legs: Seq<MatcherCall>)
    requires
        m.kind <= 1,
        m.max_fill_abs <= i128::MAX,
    ensures
        calls::legs_run(m, legs) matches Ok((after, rets)) ==> {
            &&& rets.len() == legs.len()
            &&& settlement::same_parameters(m, after)
            &&& after.inventory_base == m.inventory_base - batch::total_size(rets)
            &&& forall|i: int|
                0 <= i < legs.len() ==> leg_right(
                    m,
                    batch::total_size(rets.take(i)),
                    legs[i],
                    #[trigger] rets[i],
                )
        },
    decreases legs.len(),
{
    if legs.len() > 0 {
        let init = legs.drop_last();
        lemma_legs_right(m, init);
        batch::law_legs_answered_in_order(m, legs);
        batch::law_legs_answered_in_order(m, init);
        if let Ok((before, rets)) = calls::legs_run(m, init) {
            let leg = legs.last();
            let start = calls::without_carry(before);
            if let Ok((after, ret)) = calls::leg_step(before, leg) {
                terms::law_call_is_priced_and_booked(start, leg);
                let all = rets.push(ret);
                assert forall|i: int| 0 <= i < legs.len() implies leg_right(
                    m,
                    batch::total_size(all.take(i)),
                    legs[i],
                    #[trigger] all[i],
                ) by {
                    if i < init.len() {
                        assert(all.take(i) =~= rets.take(i));
                        assert(init[i] == legs[i] && all[i] == rets[i]);
                    } else {
                        assert(all.take(i) =~= rets);
                        assert(leg == legs[i] && all[i] == ret);
                        let here = at_position(m, m.inventory_base - batch::total_size(rets));
                        assert(here.inventory_base == start.inventory_base);
                        assert(terms::answers(here, leg, ret));
                    }
                }
            }
        }
    }
}

/// Whether `ret` answers a leg on the state `m` after `moved` was filled, with the
/// right size.
pub open spec fn leg_right(m: CtxModel, moved: int, leg: MatcherCall, ret: MatcherReturn) -> bool {
    let inventory = m.inventory_base - moved;
    &&& i128::MIN <= inventory <= i128::MAX
    &&& terms::answers(at_position(m, inventory), leg, ret)
    &&& terms::rightly_sized(
        m.max_inventory_abs as int,
        m.max_fill_abs as int,
        inventory,
        leg.req_size as int,
        ret.exec_size as int,
    )
}

/// A batch that succeeds returns one 64-byte record for each leg, in order. Each
/// record echoes the request id and number of the header and the asset and price of
/// its leg, and holds the size and price that are due on the position that the legs
/// before it left. The account ends at the position that the last leg left; its
/// parameters and everything around its state stay.
#[verifier::rlimit(60)]
pub proof fn law_batch_records(key: Seq<u8>, data: Seq<u8>, instruction: Seq<u8>)
    requires
        data.len() >= 64,
    ensures
        calls::batch_outcome(key, data, instruction) matches Ok((written, returned)) ==> {
            let n = instruction[1] as int;
            let m = meaning::state_in(data);
            &&& holds_legs(instruction, n)
            &&& returned.len() == 64 * n
            &&& forall|i: int|
                0 <= i < n ==> #[trigger] leg_answered(
                    m,
                    position_before(data, returned, i),
                    leg_in(instruction, i),
                    meaning::answer_in(returned, 64 * i),
                )
            &&& wire::signed16(written, 160) == position_before(data, returned, n)
            &&& terms::unchanged_parameters(m, meaning::state_in(written))
            &&& written.len() == data.len()
            &&& forall|i: int| 77 <= i < 80 || 220 <= i < 224 ==> #[trigger] written[i] == 0
            &&& forall|i: int|
                0 <= i < 64 || 320 <= i < data.len() ==> #[trigger] written[i] == data[i]
        },
{
    if let Ok((written, returned)) = calls::batch_outcome(key, data, instruction) {
        let n = instruction[1] as int;
        assert(holds_legs(instruction, n));
        lemma_legs(instruction, n);
        meaning::law_who_may_use_an_account(key, data, bytes::u64_at(instruction, 10));
        let m = meaning::state_in(data);
        let legs = calls::legs_of(instruction, n as nat);
        lemma_legs_right(m, legs);
        let (after, rets) = calls::legs_run(m, legs)->Ok_0;
        meaning::law_state_in_account(data);
        meaning::lemma_set_up_bytes(data, after);
        batch::law_returned_bytes(rets);
        lemma_positions(data, rets, n);
        assert forall|i: int| 0 <= i < n implies #[trigger] leg_answered(
            m,
            position_before(data, returned, i),
            leg_in(instruction, i),
            meaning::answer_in(returned, 64 * i),
        ) by {
            lemma_positions(data, rets, i);
            lemma_record(rets, i);
            assert(leg_right(m, batch::total_size(rets.take(i)), legs[i], rets[i]));
        }
        assert(rets.take(n) =~= rets);
    }
}

/// Every record of a batch holds the bytes of its request: the request id and the
/// number from the header, the price from the leg, each byte for byte, and the
/// leg's asset.
pub proof fn law_records_echo_bytes(key: Seq<u8>, data: Seq<u8>, instruction: Seq<u8>, i: int)
    requires
        data.len() >= 64,
        0 <= i < instruction[1],
    ensures
        calls::batch_outcome(key, data, instruction) matches Ok((_, returned)) ==> {
            &&& returned.subrange(64 * i + 32, 64 * i + 40) == instruction.subrange(2, 10)
            &&& returned.subrange(64 * i + 40, 64 * i + 48) == instruction.subrange(10, 18)
            &&& returned.subrange(64 * i + 48, 64 * i + 56) == instruction.subrange(
                18 + 26 * i + 2,
                18 + 26 * i + 10,
            )
            &&& wire::le8(returned, 64 * i + 56) == wire::le2(instruction, 18 + 26 * i)
        },
{
    law_batch_records(key, data, instruction);
    if let Ok((_, returned)) = calls::batch_outcome(key, data, instruction) {
        let n = instruction[1] as int;
        assert(leg_answered(
            meaning::state_in(data),
            position_before(data, returned, i),
            leg_in(instruction, i),
            meaning::answer_in(returned, 64 * i),
        ));
        assert(64 * i + 64 <= 64 * n && 26 * i + 26 <= 26 * n);
        wire::lemma_same_eight(returned, 64 * i + 32, instruction, 2);
        wire::lemma_same_eight(returned, 64 * i + 40, instruction, 10);
        wire::lemma_same_eight(returned, 64 * i + 48, instruction, 18 + 26 * i + 2);
    }
}

/// Whether `ret` answers a leg on the state `m` at a position, with the right size.
pub open spec fn leg_answered(
    m: CtxModel,
    inventory: int,
    leg: MatcherCall,
    ret: MatcherReturn,
) -> bool {
    &&& terms::answers(at_position(m, inventory), leg, ret)
    &&& terms::rightly_sized(
        m.max_inventory_abs as int,
        m.max_fill_abs as int,
        inventory,
        leg.req_size as int,
        ret.exec_size as int,
    )
}

/// Record `i` of the returned bytes.
proof fn lemma_record(rets: Seq<MatcherReturn>, i: int)
    requires
        0 <= i < rets.len(),
    ensures
        meaning::answer_in(calls::encoded_returns(rets), 64 * i) == rets[i],
        wire::signed16(calls::encoded_returns(rets), 64 * i + 16) == rets[i].exec_size,
{
    let all = calls::encoded_returns(rets);
    batch::law_returned_bytes(rets);
    let ret = rets[i];
    let one = ret.encoded();
    assert(all.subrange(i * 64, i * 64 + 64) == one);
    wire::law_answer_on_the_wire(ret, Seq::empty());
    assert(one + Seq::<u8>::empty() =~= one);
    assert forall|k: int| 0 <= k < 64 implies one[k] == #[trigger] all[64 * i + k] by {
        assert(all.subrange(i * 64, i * 64 + 64)[k] == all[i * 64 + k]);
    }
    lemma_within(one, all, 64 * i, 0, 4);
    lemma_within(one, all, 64 * i, 4, 4);
    lemma_within(one, all, 64 * i, 8, 8);
    lemma_within(one, all, 64 * i, 16, 16);
    lemma_within(one, all, 64 * i, 32, 8);
    lemma_within(one, all, 64 * i, 40, 8);
    lemma_within(one, all, 64 * i, 48, 8);
    lemma_within(one, all, 64 * i, 56, 8);
}

/// The integers in a record are those in the bytes that hold it.
proof fn lemma_within(one: Seq<u8>, all: Seq<u8>, base: int, at: int, n: int)
    requires
        0 <= at,
        0 <= n,
        at + n <= 64,
        forall|k: int| 0 <= k < 64 ==> one[k] == #[trigger] all[base + k],
    ensures
        4 <= n ==> wire::le4(one, at) == wire::le4(all, base + at),
        8 <= n ==> wire::le8(one, at) == wire::le8(all, base + at),
        16 <= n ==> wire::signed16(one, at) == wire::signed16(all, base + at),
{
    assert forall|k: int| 0 <= k < n implies one[at + k] == #[trigger] all[base + at + k] by {
        assert(all[base + (at + k)] == one[at + k]);
    }
    meaning::lemma_same_place(one, at, all, base + at, n);
}

/// Positions in terms of the answers.
proof fn lemma_positions(data: Seq<u8>, rets: Seq<MatcherReturn>, i: int)
    requires
        0 <= i <= rets.len(),
    ensures
        position_before(data, calls::encoded_returns(rets), i) == wire::signed16(data, 160)
            - batch::total_size(rets.take(i)),
    decreases i,
{
    if i > 0 {
        lemma_positions(data, rets, i - 1);
        lemma_record(rets, i - 1);
        assert(rets.take(i).drop_last() =~= rets.take(i - 1));
        assert(rets.take(i).last() == rets[i - 1]);
    } else {
        assert(rets.take(0) =~= Seq::<MatcherReturn>::empty());
    }
}

/// An account's data with no fraction of an insurance fee carried over.
pub open spec fn cleared(data: Seq<u8>) -> Seq<u8> {
    data.take(232) + seq![0, 0, 0, 0, 0, 0, 0, 0] + data.skip(240)
}

/// Whether the bytes of a single call ask for leg `i` of a batch.
pub open spec fn asks_for_leg(call: Seq<u8>, instruction: Seq<u8>, i: int) -> bool {
    let base = 18 + 26 * i;
    &&& call.len() == 67
    &&& call[0] == 0
    &&& call.subrange(1, 9) == instruction.subrange(2, 10)
    &&& call.subrange(9, 11) == instruction.subrange(base, base + 2)
    &&& call.subrange(11, 19) == instruction.subrange(10, 18)
    &&& call.subrange(19, 43) == instruction.subrange(base + 2, base + 26)
    &&& forall|k: int| 43 <= k < 67 ==> call[k] == 0
}

/// Integers in equal stretches of two sequences.
proof fn lemma_same_stretch(s: Seq<u8>, at: int, t: Seq<u8>, other: int, len: int, k: int, n: int)
    requires
        0 <= at,
        at + len <= s.len(),
        0 <= other,
        other + len <= t.len(),
        s.subrange(at, at + len) == t.subrange(other, other + len),
        0 <= k,
        0 <= n,
        k + n <= len,
    ensures
        2 <= n ==> wire::le2(s, at + k) == wire::le2(t, other + k),
        8 <= n ==> wire::le8(s, at + k) == wire::le8(t, other + k),
        16 <= n ==> wire::signed16(s, at + k) == wire::signed16(t, other + k),
{
    assert forall|i: int| 0 <= i < n implies s[at + k + i] == #[trigger] t[other + k + i] by {
        assert(s.subrange(at, at + len)[k + i] == s[at + k + i]);
        assert(t.subrange(other, other + len)[k + i] == t[other + k + i]);
    }
    meaning::lemma_same_place(s, at + k, t, other + k, n);
}

/// A call that asks for a leg reads as that leg.
proof fn lemma_asks_for_leg(call: Seq<u8>, instruction: Seq<u8>, i: int)
    requires
        asks_for_leg(call, instruction, i),
        0 <= i,
        18 + 26 * i + 26 <= instruction.len(),
    ensures
        meaning::call_in(call) == leg_in(instruction, i),
        wire::le8(call, 19) == wire::le8(instruction, 18 + 26 * i + 2),
        wire::signed16(call, 27) == wire::signed16(instruction, 18 + 26 * i + 10),
        wire::le8(call, 11) == wire::le8(instruction, 10),
{
    let base = 18 + 26 * i;
    lemma_same_stretch(call, 1, instruction, 2, 8, 0, 8);
    lemma_same_stretch(call, 9, instruction, base, 2, 0, 2);
    lemma_same_stretch(call, 11, instruction, 10, 8, 0, 8);
    lemma_same_stretch(call, 19, instruction, base + 2, 24, 0, 8);
    lemma_same_stretch(call, 19, instruction, base + 2, 24, 8, 16);
}

/// Clearing the fraction changes nothing else of the state.
#[verifier::rlimit(50)]
proof fn lemma_cleared(data: Seq<u8>)
    requires
        data.len() >= 320,
    ensures
        cleared(data).len() == data.len(),
        cleared(data).skip(320) == data.skip(320),
        meaning::state_in(cleared(data)) == calls::without_carry(meaning::state_in(data)),
        wire::le8(cleared(data), 64) == wire::le8(data, 64),
        wire::le4(cleared(data), 72) == wire::le4(data, 72),
        cleared(data)[76] == data[76],
        cleared(data).subrange(80, 112) == data.subrange(80, 112),
        wire::le8(cleared(data), 224) == wire::le8(data, 224),
{
    let c = cleared(data);
    assert(forall|i: int|
        0 <= i < 232 || 240 <= i < data.len() ==> #[trigger] c[i] == data[i]);
    assert(forall|i: int| 232 <= i < 240 ==> #[trigger] c[i] == 0);
    assert(c.skip(320) =~= data.skip(320));
    assert(c.subrange(80, 112) =~= data.subrange(80, 112));
    assert(c.subrange(240, 320) =~= data.subrange(240, 320));
}

/// A leg is what the single call that asks for it is, with no fraction carried in.
#[verifier::rlimit(50)]
proof fn lemma_leg_as_call(
    key: Seq<u8>,
    mid: Seq<u8>,
    instruction: Seq<u8>,
    i: int,
    call: Seq<u8>,
)
    requires
        mid.len() >= 320,
        0 <= i,
        18 + 26 * i + 26 <= instruction.len(),
        asks_for_leg(call, instruction, i),
        meaning::state_refusal(key, mid, wire::le8(instruction, 10)) is None,
        !price_implausible(instruction, i),
    ensures
        calls::call_outcome(key, cleared(mid), call) == (match calls::leg_step(
            meaning::state_in(mid),
            leg_in(instruction, i),
        ) {
            Err(e) => Err(e),
            Ok((after, ret)) => Ok(ret.encoded() + after.encoded() + mid.skip(320)),
        }),
{
    lemma_asks_for_leg(call, instruction, i);
    lemma_cleared(mid);
    wire::law_call_on_the_wire(call);
    let leg = leg_in(instruction, i);
    assert(MatcherCall::decoded(call) == leg);
    meaning::law_who_may_use_an_account(key, cleared(mid), leg.lp_account_id);
    assert(meaning::within_rules(meaning::state_in(cleared(mid))));
}

/// The single call that asks for the only leg of a batch does what the batch does:
/// the record that the batch returns is the answer that the call writes, and the
/// states after them are the same.
pub proof fn law_batch_of_one_is_a_call(
    key: Seq<u8>,
    data: Seq<u8>,
    instruction: Seq<u8>,
    call: Seq<u8>,
)
    requires
        data.len() >= 64,
        holds_legs(instruction, 1),
        asks_for_leg(call, instruction, 0),
        prices_in_order(instruction, 1),
        meaning::state_refusal(key, data, wire::le8(instruction, 10)) is None,
    ensures
        calls::batch_outcome(key, data, instruction) == (match calls::call_outcome(
            key,
            cleared(data),
            call,
        ) {
            Err(e) => Err(e),
            Ok(last) => Ok((data.take(64) + last.skip(64), last.take(64))),
        }),
{
    assert(!price_implausible(instruction, 0));
    lemma_leg_as_call(key, data, instruction, 0, call);
    lemma_legs(instruction, 1);
    lemma_prices(instruction, 1);
    meaning::law_who_may_use_an_account(key, data, bytes::u64_at(instruction, 10));
    let m = meaning::state_in(data);
    let legs = calls::legs_of(instruction, 1);
    assert(legs.drop_last() =~= Seq::<MatcherCall>::empty());
    assert(calls::legs_run(m, legs.drop_last()) == Ok::<
        (CtxModel, Seq<MatcherReturn>),
        MatcherError,
    >((m, Seq::empty())));
    assert(legs.last() == leg_in(instruction, 0));
    if let Ok((after, ret)) = calls::leg_step(m, leg_in(instruction, 0)) {
        let none = Seq::<MatcherReturn>::empty();
        assert(none.push(ret).drop_last() =~= none);
        assert(calls::encoded_returns(none) =~= Seq::<u8>::empty());
        crate::abi::lemma_return_len(ret);
        lemma_last_leg(data, Seq::empty(), after, ret, data.skip(320));
        assert(Seq::<u8>::empty() + ret.encoded() =~= ret.encoded());
    }
}

/// What the last leg adds to a batch.
proof fn lemma_last_leg(
    data: Seq<u8>,
    first: Seq<u8>,
    after: CtxModel,
    ret: MatcherReturn,
    rest: Seq<u8>,
)
    requires
        data.len() >= 64,
        ret.encoded().len() == 64,
    ensures
        ({
            let last = ret.encoded() + after.encoded() + rest;
            &&& data.take(64) + last.skip(64) == data.take(64) + after.encoded() + rest
            &&& last.take(64) == ret.encoded()
        }),
{
    state::lemma_skip_front(ret.encoded(), after.encoded(), rest);
    meaning::lemma_regroup(data.take(64), after.encoded(), rest);
}

/// A batch does what the batch without its last leg does, followed by the single
/// call that asks for that leg, with no fraction of an insurance fee carried in: the
/// same records, the same state, the same error.
#[verifier::rlimit(50)]
pub proof fn law_batch_is_its_legs_in_turn(
    key: Seq<u8>,
    data: Seq<u8>,
    instruction: Seq<u8>,
    n: int,
    shorter: Seq<u8>,
    call: Seq<u8>,
)
    requires
        data.len() >= 64,
        n >= 2,
        holds_legs(instruction, n),
        holds_legs(shorter, n - 1),
        shorter.subrange(2, 18 + 26 * (n - 1)) == instruction.subrange(2, 18 + 26 * (n - 1)),
        asks_for_leg(call, instruction, n - 1),
        prices_in_order(instruction, n),
    ensures
        calls::batch_outcome(key, data, instruction) == (match calls::batch_outcome(
            key,
            data,
            shorter,
        ) {
            Err(e) => Err(e),
            Ok((mid, first)) => match calls::call_outcome(key, cleared(mid), call) {
                Err(e) => Err(e),
                Ok(last) => Ok((data.take(64) + last.skip(64), first + last.take(64))),
            },
        }),
{
    let legs = calls::legs_of(instruction, n as nat);
    let fewer = calls::legs_of(shorter, (n - 1) as nat);
    lemma_legs(instruction, n);
    lemma_legs(shorter, n - 1);
    lemma_shorter(instruction, n, shorter);
    assert(legs.drop_last() =~= fewer);
    assert(legs.last() == leg_in(instruction, n - 1));
    lemma_batch_form(key, data, instruction, n);
    lemma_batch_form(key, data, shorter, n - 1);
    if meaning::state_refusal(key, data, wire::le8(instruction, 10)) is None {
        let m = meaning::state_in(data);
        if let Ok((before, rets)) = calls::legs_run(m, fewer) {
            lemma_last_call(key, data, instruction, n, call, fewer, before, rets);
            if let Ok((after, ret)) = calls::leg_step(before, leg_in(instruction, n - 1)) {
                assert(rets.push(ret).drop_last() =~= rets);
                crate::abi::lemma_return_len(ret);
                lemma_last_leg(data, calls::encoded_returns(rets), after, ret, data.skip(320));
            }
        }
    }
}

/// A batch whose prices are in order, in terms of its legs.
proof fn lemma_batch_form(key: Seq<u8>, data: Seq<u8>, instruction: Seq<u8>, n: int)
    requires
        data.len() >= 64,
        holds_legs(instruction, n),
        prices_in_order(instruction, n),
    ensures
        ({
            let refusal = meaning::state_refusal(key, data, wire::le8(instruction, 10));
            let m = meaning::state_in(data);
            calls::batch_outcome(key, data, instruction) == (if refusal is Some {
                Err(refusal->Some_0)
            } else {
                match calls::legs_run(m, calls::legs_of(instruction, n as nat)) {
                    Err(e) => Err(e),
                    Ok((after, rets)) => Ok(
                        (
                            data.take(64) + after.encoded() + data.skip(320),
                            calls::encoded_returns(rets),
                        ),
                    ),
                }
            })
        }),
{
    lemma_legs(instruction, n);
    lemma_prices(instruction, n);
    meaning::law_who_may_use_an_account(key, data, bytes::u64_at(instruction, 10));
}

/// The single call for the last leg, on what the legs before it left.
#[verifier::rlimit(50)]
proof fn lemma_last_call(
    key: Seq<u8>,
    data: Seq<u8>,
    instruction: Seq<u8>,
    n: int,
    call: Seq<u8>,
    fewer: Seq<MatcherCall>,
    before: CtxModel,
    rets: Seq<MatcherReturn>,
)
    requires
        data.len() >= 64,
        n >= 2,
        holds_legs(instruction, n),
        asks_for_leg(call, instruction, n - 1),
        prices_in_order(instruction, n),
        meaning::state_refusal(key, data, wire::le8(instruction, 10)) is None,
        calls::legs_run(meaning::state_in(data), fewer) == Ok::<
            (CtxModel, Seq<MatcherReturn>),
            MatcherError,
        >((before, rets)),
    ensures
        calls::call_outcome(
            key,
            cleared(data.take(64) + before.encoded() + data.skip(320)),
            call,
        ) == (match calls::leg_step(before, leg_in(instruction, n - 1)) {
            Err(e) => Err(e),
            Ok((after, ret)) => Ok(ret.encoded() + after.encoded() + data.skip(320)),
        }),
{
    let mid = data.take(64) + before.encoded() + data.skip(320);
    lemma_between(key, data, fewer, before, rets, wire::le8(instruction, 10), mid);
    assert(!price_implausible(instruction, n - 1));
    lemma_leg_as_call(key, mid, instruction, n - 1, call);
}

/// The account after some legs of a batch.
#[verifier::rlimit(50)]
proof fn lemma_between(
    key: Seq<u8>,
    data: Seq<u8>,
    fewer: Seq<MatcherCall>,
    before: CtxModel,
    rets: Seq<MatcherReturn>,
    id: int,
    mid: Seq<u8>,
)
    requires
        meaning::state_refusal(key, data, id) is None,
        calls::legs_run(meaning::state_in(data), fewer) == Ok::<
            (CtxModel, Seq<MatcherReturn>),
            MatcherError,
        >((before, rets)),
        mid == data.take(64) + before.encoded() + data.skip(320),
    ensures
        mid.len() == data.len() >= 320,
        mid.skip(320) == data.skip(320),
        meaning::state_in(mid) == before,
        meaning::state_refusal(key, mid, id) is None,
{
    let m = meaning::state_in(data);
    batch::law_legs_answered_in_order(m, fewer);
    meaning::law_state_in_account(data);
    state::lemma_decoded_shape(data);
    lemma_behind_state(data, before, mid);
    lemma_still_usable(key, data, mid, before, id);
}

/// What stands behind a state that was written.
proof fn lemma_behind_state(data: Seq<u8>, before: CtxModel, mid: Seq<u8>)
    requires
        data.len() >= 320,
        before.sized(),
        before.magic == 0x5045_5243_4d41_5443,
        before.pad0 == bytes::zeros(3),
        before.new_pad == bytes::zeros(4),
        mid == data.take(64) + before.encoded() + data.skip(320),
    ensures
        mid.len() == data.len(),
        mid.skip(320) == data.skip(320),
        meaning::state_in(mid) == before,
{
    crate::context::lemma_ctx_len(before);
    state::lemma_skip_front(data.take(64), before.encoded(), data.skip(320));
    meaning::lemma_set_up_bytes(data, before);
}

/// The legs of a batch and of the same batch without its last leg.
proof fn lemma_shorter(instruction: Seq<u8>, n: int, shorter: Seq<u8>)
    requires
        n >= 2,
        holds_legs(instruction, n),
        holds_legs(shorter, n - 1),
        shorter.subrange(2, 18 + 26 * (n - 1)) == instruction.subrange(2, 18 + 26 * (n - 1)),
    ensures
        wire::le8(shorter, 10) == wire::le8(instruction, 10),
        forall|i: int|
            0 <= i < n - 1 ==> #[trigger] leg_in(shorter, i) == leg_in(instruction, i),
        prices_in_order(instruction, n) ==> prices_in_order(shorter, n - 1),
{
    let len = 18 + 26 * (n - 1) - 2;
    lemma_same_stretch(shorter, 2, instruction, 2, len, 0, 8);
    lemma_same_stretch(shorter, 2, instruction, 2, len, 8, 8);
    assert forall|i: int| 0 <= i < n - 1 implies {
        &&& #[trigger] leg_in(shorter, i) == leg_in(instruction, i)
        &&& wire::le2(shorter, 18 + 26 * i) == wire::le2(instruction, 18 + 26 * i)
        &&& wire::le8(shorter, 18 + 26 * i + 2) == wire::le8(instruction, 18 + 26 * i + 2)
    } by {
        lemma_same_stretch(shorter, 2, instruction, 2, len, 16 + 26 * i, 2);
        lemma_same_stretch(shorter, 2, instruction, 2, len, 16 + 26 * i + 2, 8);
        lemma_same_stretch(shorter, 2, instruction, 2, len, 16 + 26 * i + 10, 16);
    }
    if prices_in_order(instruction, n) {
        assert forall|i: int| 0 <= i < n - 1 implies !price_implausible(shorter, i) by {
            assert(leg_in(shorter, i) == leg_in(instruction, i));
            assert(!price_implausible(instruction, i));
        }
        assert forall|j: int, i: int| 0 <= j < i < n - 1 implies !prices_clash(shorter, j, i) by {
            assert(leg_in(shorter, i) == leg_in(instruction, i));
            assert(leg_in(shorter, j) == leg_in(instruction, j));
            assert(!prices_clash(instruction, j, i));
        }
    }
}

/// A provider that may use an account may use it after a batch.
proof fn lemma_still_usable(
    key: Seq<u8>,
    data: Seq<u8>,
    mid: Seq<u8>,
    before: CtxModel,
    id: int,
)
    requires
        meaning::state_refusal(key, data, id) is None,
        mid.len() == data.len(),
        meaning::state_in(mid) == before,
        settlement::same_parameters(meaning::state_in(data), before),
    ensures
        meaning::state_refusal(key, mid, id) is None,
{
    let m = meaning::state_in(data);
    assert(before.magic == wire::le8(mid, 64) && m.magic == wire::le8(data, 64));
    assert(before.version == wire::le4(mid, 72) && m.version == wire::le4(data, 72));
    assert(before.lp_pda == mid.subrange(80, 112));
    assert(before.lp_account_id == wire::le8(mid, 224));
    assert(m.lp_account_id == wire::le8(data, 224));
    assert(meaning::within_rules(before));
}

} // verus!
