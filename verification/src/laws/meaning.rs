//! What an instruction does, from the bytes that go in to the bytes that come out.
use vstd::prelude::*;

use crate::abi::{MatcherCall, MatcherReturn};
use crate::account::Account;
use crate::bytes;
use crate::calls;
use crate::context::CtxModel;
use crate::error::MatcherError;
use crate::init::InitParams;
use crate::laws::state;
use crate::laws::terms;
use crate::laws::wire;
use crate::processor;
use crate::settlement;

verus! {

/// The state in a context account's data, field by field.
pub open spec fn state_in(data: Seq<u8>) -> CtxModel {
    CtxModel {
        magic: wire::le8(data, 64) as u64,
        version: wire::le4(data, 72) as u32,
        kind: data[76],
        pad0: seq![0, 0, 0],
        lp_pda: data.subrange(80, 112),
        trading_fee_bps: wire::le4(data, 112) as u32,
        base_spread_bps: wire::le4(data, 116) as u32,
        max_total_bps: wire::le4(data, 120) as u32,
        impact_k_bps: wire::le4(data, 124) as u32,
        liquidity_notional_e6: wire::le16(data, 128) as u128,
        max_fill_abs: wire::le16(data, 144) as u128,
        inventory_base: wire::signed16(data, 160) as i128,
        last_oracle_price_e6: wire::le8(data, 176) as u64,
        last_exec_price_e6: wire::le8(data, 184) as u64,
        max_inventory_abs: wire::le16(data, 192) as u128,
        insurance_accrued_e6: wire::le8(data, 208) as u64,
        fee_to_insurance_bps: wire::le2(data, 216) as u16,
        skew_spread_mult_bps: wire::le2(data, 218) as u16,
        new_pad: seq![0, 0, 0, 0],
        lp_account_id: wire::le8(data, 224) as u64,
        insurance_fee_remainder_e6: wire::le8(data, 232) as u64,
        reserved: data.subrange(240, 320),
    }
}

/// The call in a single call's bytes, field by field.
pub open spec fn call_in(instruction: Seq<u8>) -> MatcherCall {
    MatcherCall {
        req_id: wire::le8(instruction, 1) as u64,
        asset_index: wire::le2(instruction, 9) as u16,
        lp_account_id: wire::le8(instruction, 11) as u64,
        oracle_price_e6: wire::le8(instruction, 19) as u64,
        req_size: wire::signed16(instruction, 27) as i128,
    }
}

/// The answer in 64 bytes, field by field.
pub open spec fn answer_in(data: Seq<u8>, at: int) -> MatcherReturn {
    MatcherReturn {
        abi_version: wire::le4(data, at) as u32,
        flags: wire::le4(data, at + 4) as u32,
        exec_price_e6: wire::le8(data, at + 8) as u64,
        exec_size: wire::signed16(data, at + 16) as i128,
        req_id: wire::le8(data, at + 32) as u64,
        lp_account_id: wire::le8(data, at + 40) as u64,
        oracle_price_e6: wire::le8(data, at + 48) as u64,
        asset_index: wire::le8(data, at + 56) as u64,
    }
}

/// The integers at one place of a sequence are those at another place of another
/// sequence that holds the same sixteen bytes there.
pub(crate) proof fn lemma_same_place(s: Seq<u8>, at: int, t: Seq<u8>, other: int, n: int)
    requires
        0 <= n,
        forall|i: int| 0 <= i < n ==> s[at + i] == #[trigger] t[other + i],
    ensures
        2 <= n ==> wire::le2(s, at) == wire::le2(t, other),
        4 <= n ==> wire::le4(s, at) == wire::le4(t, other),
        8 <= n ==> wire::le8(s, at) == wire::le8(t, other),
        16 <= n ==> wire::le16(s, at) == wire::le16(t, other),
        16 <= n ==> wire::signed16(s, at) == wire::signed16(t, other),
{
    if 2 <= n {
        assert(t[other + 0] == s[at + 0] && t[other + 1] == s[at + 1]);
    }
    if 4 <= n {
        assert(t[other + 2] == s[at + 2] && t[other + 3] == s[at + 3]);
    }
    if 8 <= n {
        assert(t[other + 4] == s[at + 4] && t[other + 5] == s[at + 5]);
        assert(t[other + 6] == s[at + 6] && t[other + 7] == s[at + 7]);
    }
    if 16 <= n {
        assert(t[other + 8] == s[at + 8] && t[other + 9] == s[at + 9]);
        assert(t[other + 10] == s[at + 10] && t[other + 11] == s[at + 11]);
        assert(t[other + 12] == s[at + 12] && t[other + 13] == s[at + 13]);
        assert(t[other + 14] == s[at + 14] && t[other + 15] == s[at + 15]);
    }
}

/// What stands behind the first 64 bytes.
proof fn lemma_behind_answer(data: Seq<u8>, at: int, n: int)
    requires
        0 <= at,
        0 <= n,
        at + n + 64 <= data.len(),
    ensures
        2 <= n ==> wire::le2(data.skip(64), at) == wire::le2(data, 64 + at),
        4 <= n ==> wire::le4(data.skip(64), at) == wire::le4(data, 64 + at),
        8 <= n ==> wire::le8(data.skip(64), at) == wire::le8(data, 64 + at),
        16 <= n ==> wire::le16(data.skip(64), at) == wire::le16(data, 64 + at),
        16 <= n ==> wire::signed16(data.skip(64), at) == wire::signed16(data, 64 + at),
{
    lemma_same_place(data.skip(64), at, data, 64 + at, n);
}

/// The state that the library reads from an account is the one in its bytes.
#[verifier::rlimit(50)]
pub proof fn law_state_in_account(data: Seq<u8>)
    requires
        data.len() >= 320,
    ensures
        state::state_of(data) == state_in(data),
{
    let s = data.skip(64);
    wire::law_state_read_from_wire(s);
    lemma_behind_answer(data, 0, 8);
    lemma_behind_answer(data, 8, 4);
    lemma_behind_answer(data, 48, 4);
    lemma_behind_answer(data, 52, 4);
    lemma_behind_answer(data, 56, 4);
    lemma_behind_answer(data, 60, 4);
    lemma_behind_answer(data, 64, 16);
    lemma_behind_answer(data, 80, 16);
    lemma_behind_answer(data, 96, 16);
    lemma_behind_answer(data, 112, 8);
    lemma_behind_answer(data, 120, 8);
    lemma_behind_answer(data, 128, 16);
    lemma_behind_answer(data, 144, 8);
    lemma_behind_answer(data, 152, 2);
    lemma_behind_answer(data, 154, 2);
    lemma_behind_answer(data, 160, 8);
    lemma_behind_answer(data, 168, 8);
    let m = CtxModel::decoded(s);
    let w = state_in(data);
    assert(m.pad0 =~= w.pad0);
    assert(m.new_pad =~= w.new_pad);
    assert(m.lp_pda =~= w.lp_pda);
    assert(m.reserved =~= w.reserved);
}

/// The rules that a provider's parameters must keep, apart from version and kind.
pub open spec fn within_rules(m: CtxModel) -> bool {
    &&& m.kind == 1 ==> m.liquidity_notional_e6 != 0
    &&& m.max_total_bps <= 9_000
    &&& m.trading_fee_bps <= 1_000
    &&& m.base_spread_bps + m.trading_fee_bps <= m.max_total_bps
    &&& exists|i: int| 0 <= i < m.lp_pda.len() && m.lp_pda[i] != 0
    &&& m.fee_to_insurance_bps <= 10_000
    &&& m.skew_spread_mult_bps <= 10_000
    &&& m.max_inventory_abs <= 0x7fff_ffff_ffff_ffff_ffff_ffff_ffff_ffff
    &&& m.max_fill_abs <= 0x7fff_ffff_ffff_ffff_ffff_ffff_ffff_ffff
}

/// A state is valid where it has version 4, one of the two kinds, and keeps the
/// rules.
pub proof fn law_rules(m: CtxModel)
    requires
        m.lp_pda.len() == 32,
    ensures
        m.validation() == (if m.version == 4 && m.kind > 1 {
            Err(MatcherError::InvalidInstructionData)
        } else if m.version == 4 && within_rules(m) {
            Ok(())
        } else {
            Err(MatcherError::InvalidAccountData)
        }),
{
    let none = bytes::zeros(32);
    if m.lp_pda != none {
        assert(!(m.lp_pda =~= none));
        let i = choose|i: int| 0 <= i < 32 && m.lp_pda[i] != none[i];
        assert(m.lp_pda[i] != 0);
    }
}

/// Why a provider may not use a context account, or nothing.
pub open spec fn state_refusal(key: Seq<u8>, data: Seq<u8>, lp_account_id: int) -> Option<
    MatcherError,
> {
    if data.len() < 320 {
        Some(MatcherError::AccountDataTooSmall)
    } else if wire::le8(data, 64) != 0x5045_5243_4d41_5443 {
        Some(MatcherError::UninitializedAccount)
    } else if wire::le4(data, 72) == 4 && data[76] > 1 {
        Some(MatcherError::InvalidInstructionData)
    } else if wire::le4(data, 72) != 4 || !within_rules(state_in(data)) || key != data.subrange(
        80,
        112,
    ) {
        Some(MatcherError::InvalidAccountData)
    } else if wire::le8(data, 224) != 0 && wire::le8(data, 224) != lp_account_id {
        Some(MatcherError::InvalidInstructionData)
    } else {
        None
    }
}

/// An account serves the provider that it is bound to, under the number that it
/// names, as long as what it holds keeps the rules.
pub proof fn law_who_may_use_an_account(key: Seq<u8>, data: Seq<u8>, lp_account_id: u64)
    requires
        data.len() >= 64,
    ensures
        match calls::admitted(key, data, lp_account_id) {
            Ok(m) => state_refusal(key, data, lp_account_id as int) is None && m == state_in(data),
            Err(e) => state_refusal(key, data, lp_account_id as int) == Some(e),
        },
{
    wire::law_state_needs_mark(data.skip(64));
    if data.len() >= 320 {
        law_state_in_account(data);
        lemma_behind_answer(data, 0, 8);
        law_rules(state_in(data));
    }
}

/// Whether the bytes are a single call that can be looked at: its length, tag and
/// padding, a price from 1 to 1e15, and a size that has an opposite.
pub open spec fn call_readable(instruction: Seq<u8>) -> bool {
    &&& instruction.len() >= 67
    &&& instruction[0] == 0
    &&& forall|i: int| 43 <= i < 67 ==> instruction[i] == 0
    &&& 1 <= wire::le8(instruction, 19) <= 1_000_000_000_000_000
    &&& wire::signed16(instruction, 27) != i128::MIN
}

/// A single call, from its bytes and the account's bytes to the account's bytes
/// after it: the answer in front echoes the call and fills it at the size and price
/// that are due; the state behind it has that fill booked; padding becomes zero and
/// nothing else changes. It is refused where the call cannot be read, where the
/// provider may not use the account, or where a number does not fit.
#[verifier::rlimit(50)]
pub proof fn law_single_call(key: Seq<u8>, data: Seq<u8>, instruction: Seq<u8>)
    requires
        data.len() >= 64,
    ensures
        ({
            let refusal = state_refusal(key, data, wire::le8(instruction, 11));
            let m = state_in(data);
            let call = call_in(instruction);
            match calls::call_outcome(key, data, instruction) {
                Ok(written) => {
                    let ret = answer_in(written, 0);
                    &&& call_readable(instruction)
                    &&& refusal is None
                    &&& terms::priceable(m, call)
                    &&& terms::answers(m, call, ret)
                    &&& terms::rightly_sized(
                        m.max_inventory_abs as int,
                        m.max_fill_abs as int,
                        m.inventory_base as int,
                        call.req_size as int,
                        ret.exec_size as int,
                    )
                    &&& terms::bookable(m, ret.exec_size as int, ret.exec_price_e6 as int)
                    &&& terms::booked_right(
                        m,
                        state_in(written),
                        call.oracle_price_e6 as int,
                        ret.exec_size as int,
                        ret.exec_price_e6 as int,
                    )
                    &&& written.len() == data.len()
                    &&& forall|i: int|
                        77 <= i < 80 || 220 <= i < 224 ==> #[trigger] written[i] == 0
                    &&& forall|i: int| 320 <= i < data.len() ==> #[trigger] written[i] == data[i]
                },
                Err(e) => if !call_readable(instruction) {
                    e == MatcherError::InvalidInstructionData
                } else if refusal is Some {
                    refusal == Some(e)
                } else {
                    &&& e == MatcherError::ArithmeticOverflow
                    &&& terms::priceable(m, call) ==> exists|ret: MatcherReturn|
                        #![trigger terms::answers(m, call, ret)]
                        terms::answers(m, call, ret) && !terms::bookable(
                            m,
                            ret.exec_size as int,
                            ret.exec_price_e6 as int,
                        )
                },
            }
        }),
{
    wire::law_call_on_the_wire(instruction);
    if call_readable(instruction) {
        let call = call_in(instruction);
        assert(MatcherCall::decoded(instruction) == call);
        law_who_may_use_an_account(key, data, call.lp_account_id);
        if state_refusal(key, data, call.lp_account_id as int) is None {
            let m = state_in(data);
            terms::law_call_is_priced_and_booked(m, call);
            if let Ok((after, ret)) = settlement::step(m, call) {
                law_state_in_account(data);
                lemma_call_bytes(data, after, ret);
            }
        }
    }
}

/// The bytes that a call leaves behind.
#[verifier::rlimit(50)]
proof fn lemma_call_bytes(data: Seq<u8>, after: CtxModel, ret: MatcherReturn)
    requires
        data.len() >= 320,
        state_in(data).magic == 0x5045_5243_4d41_5443,
        state::state_of(data) == state_in(data),
        settlement::same_parameters(state_in(data), after),
    ensures
        ({
            let written = ret.encoded() + after.encoded() + data.skip(320);
            &&& written.len() == data.len()
            &&& answer_in(written, 0) == ret
            &&& state_in(written) == after
            &&& forall|i: int| 77 <= i < 80 || 220 <= i < 224 ==> #[trigger] written[i] == 0
            &&& forall|i: int| 320 <= i < data.len() ==> #[trigger] written[i] == data[i]
        }),
{
    let written = ret.encoded() + after.encoded() + data.skip(320);
    let rest = after.encoded() + data.skip(320);
    state::lemma_decoded_shape(data);
    state::lemma_call_written(data, after, ret);
    law_state_in_account(written);
    wire::law_answer_on_the_wire(ret, rest);
    lemma_regroup(ret.encoded(), after.encoded(), data.skip(320));
    lemma_state_padding(written, ret.encoded(), after, data.skip(320));
    lemma_kept_behind(written, data);
}

/// Concatenation does not depend on how it is grouped.
pub(crate) proof fn lemma_regroup(a: Seq<u8>, b: Seq<u8>, c: Seq<u8>)
    ensures
        a + (b + c) == a + b + c,
{
    assert(a + (b + c) =~= a + b + c);
}

/// Bytes from 320 on that are the same taken together are the same one by one.
proof fn lemma_kept_behind(written: Seq<u8>, data: Seq<u8>)
    requires
        written.len() == data.len() >= 320,
        written.skip(320) == data.skip(320),
    ensures
        forall|i: int| 320 <= i < data.len() ==> #[trigger] written[i] == data[i],
{
    assert forall|i: int| 320 <= i < data.len() implies #[trigger] written[i] == data[i] by {
        assert(written.skip(320)[i - 320] == written[i]);
        assert(data.skip(320)[i - 320] == data[i]);
    }
}

/// The padding of a state that was written behind 64 bytes.
proof fn lemma_state_padding(written: Seq<u8>, front: Seq<u8>, m: CtxModel, rest: Seq<u8>)
    requires
        front.len() == 64,
        m.sized(),
        m.pad0 == bytes::zeros(3),
        m.new_pad == bytes::zeros(4),
        written == front + m.encoded() + rest,
    ensures
        forall|i: int| 77 <= i < 80 || 220 <= i < 224 ==> #[trigger] written[i] == 0,
{
    wire::law_state_written_to_wire(m, rest);
    state::lemma_skip_front(front, m.encoded(), rest);
    let s = m.encoded() + rest;
    assert forall|i: int| 77 <= i < 80 || 220 <= i < 224 implies #[trigger] written[i] == 0 by {
        assert(written.skip(64)[i - 64] == written[i]);
        if i < 80 {
            assert(s.subrange(13, 16)[i - 77] == s[i - 64]);
        } else {
            assert(s.subrange(156, 160)[i - 220] == s[i - 64]);
        }
    }
}

/// Why the accounts of an instruction are refused, or nothing: the provider and the
/// context account must be there, the latter belong to the program, have 320 bytes
/// and be writable, the former sign.
pub open spec fn accounts_refusal(program_id: Seq<u8>, accounts: Seq<Account>) -> Option<
    MatcherError,
> {
    if accounts.len() < 2 {
        Some(MatcherError::NotEnoughAccountKeys)
    } else if accounts[1].owner@ != program_id {
        Some(MatcherError::IncorrectProgramId)
    } else if accounts[1].data@.len() < 320 {
        Some(MatcherError::AccountDataTooSmall)
    } else if !accounts[1].is_writable {
        Some(MatcherError::InvalidAccountData)
    } else if !accounts[0].is_signer {
        Some(MatcherError::MissingRequiredSignature)
    } else {
        None
    }
}

/// The parameters that a set-up instruction chooses, each from its own bytes. What
/// the short form leaves out is zero; limits beyond 127 bits are cut to them.
pub open spec fn chosen_in(m: CtxModel, instruction: Seq<u8>) -> bool {
    let full = instruction.len() >= 78;
    let most = 0x7fff_ffff_ffff_ffff_ffff_ffff_ffff_ffff;
    &&& m.kind == instruction[1]
    &&& m.trading_fee_bps == wire::le4(instruction, 2)
    &&& m.base_spread_bps == wire::le4(instruction, 6)
    &&& m.max_total_bps == wire::le4(instruction, 10)
    &&& m.impact_k_bps == wire::le4(instruction, 14)
    &&& m.liquidity_notional_e6 == wire::le16(instruction, 18)
    &&& m.max_fill_abs == terms::smaller(wire::le16(instruction, 34), most)
    &&& m.max_inventory_abs == terms::smaller(wire::le16(instruction, 50), most)
    &&& full ==> {
        &&& m.fee_to_insurance_bps == wire::le2(instruction, 66)
        &&& m.skew_spread_mult_bps == wire::le2(instruction, 68)
        &&& m.lp_account_id == wire::le8(instruction, 70)
    }
    &&& !full ==> {
        &&& m.fee_to_insurance_bps == 0
        &&& m.skew_spread_mult_bps == 0
        &&& m.lp_account_id == 0
    }
}

/// A state at its start: marked, in version 4, bound to a key, with nothing traded.
pub open spec fn starts_empty(m: CtxModel, key: Seq<u8>) -> bool {
    &&& m.magic == 0x5045_5243_4d41_5443
    &&& m.version == 4
    &&& m.lp_pda == key
    &&& m.inventory_base == 0
    &&& m.last_oracle_price_e6 == 0
    &&& m.last_exec_price_e6 == 0
    &&& m.insurance_accrued_e6 == 0
    &&& m.insurance_fee_remainder_e6 == 0
    &&& m.reserved.len() == 80
    &&& forall|i: int| 0 <= i < 80 ==> m.reserved[i] == 0
}

/// Setting up, from the instruction's bytes to the account's bytes: every parameter
/// is stored as it was chosen, bound to the provider's key, with nothing traded; what
/// surrounds the state stays. It is refused where the accounts are not in order, the
/// bytes are no set-up, the account was set up before, or the parameters break a
/// rule, and only there.
#[verifier::rlimit(50)]
pub proof fn law_set_up(program_id: Seq<u8>, accounts: Seq<Account>, instruction: Seq<u8>)
    ensures
        ({
            let refusal = accounts_refusal(program_id, accounts);
            let readable = instruction.len() >= 66 && instruction[0] == 2 && instruction[1] <= 1;
            let before = accounts[1].data@;
            let key = accounts[0].key@;
            match processor::init_outcome(program_id, accounts, instruction) {
                Ok(written) => {
                    &&& refusal is None
                    &&& readable
                    &&& wire::le8(before, 64) != 0x5045_5243_4d41_5443
                    &&& chosen_in(state_in(written), instruction)
                    &&& starts_empty(state_in(written), key)
                    &&& within_rules(state_in(written))
                    &&& written.len() == before.len()
                    &&& forall|i: int|
                        77 <= i < 80 || 220 <= i < 224 ==> #[trigger] written[i] == 0
                    &&& forall|i: int|
                        0 <= i < 64 || 320 <= i < before.len() ==> #[trigger] written[i]
                            == before[i]
                },
                Err(e) => if refusal is Some {
                    refusal == Some(e)
                } else if !readable {
                    e == MatcherError::InvalidInstructionData
                } else if wire::le8(before, 64) == 0x5045_5243_4d41_5443 {
                    e == MatcherError::AccountAlreadyInitialized
                } else {
                    &&& e == MatcherError::InvalidAccountData
                    &&& forall|m: CtxModel|
                        chosen_in(m, instruction) && starts_empty(m, key) ==> !within_rules(m)
                },
            }
        }),
{
    let refusal = accounts_refusal(program_id, accounts);
    if refusal is None {
        let before = accounts[1].data@;
        wire::law_parameters_on_the_wire(instruction);
        wire::law_state_needs_mark(before.skip(64));
        lemma_behind_answer(before, 0, 8);
        if let Ok(p) = InitParams::parsed(instruction) {
            let m = processor::initial_state(p, accounts[0].key@);
            lemma_initial_state(p, accounts[0].key@, instruction);
            law_rules(m);
            if m.validation() is Ok {
                lemma_set_up_bytes(before, m);
            }
        }
    }
}

/// What a context account starts with.
proof fn lemma_initial_state(p: InitParams, key: Seq<u8>, instruction: Seq<u8>)
    requires
        InitParams::parsed(instruction) == Ok::<InitParams, MatcherError>(p),
    ensures
        chosen_in(processor::initial_state(p, key), instruction),
        starts_empty(processor::initial_state(p, key), key),
{
    wire::law_parameters_on_the_wire(instruction);
}

/// The bytes that setting up leaves behind.
#[verifier::rlimit(50)]
pub(crate) proof fn lemma_set_up_bytes(before: Seq<u8>, m: CtxModel)
    requires
        before.len() >= 320,
        m.sized(),
        m.magic == 0x5045_5243_4d41_5443,
        m.pad0 == bytes::zeros(3),
        m.new_pad == bytes::zeros(4),
    ensures
        ({
            let written = before.take(64) + m.encoded() + before.skip(320);
            &&& written.len() == before.len()
            &&& state_in(written) == m
            &&& forall|i: int| 77 <= i < 80 || 220 <= i < 224 ==> #[trigger] written[i] == 0
            &&& forall|i: int|
                0 <= i < 64 || 320 <= i < before.len() ==> #[trigger] written[i] == before[i]
        }),
{
    let front = before.take(64);
    let rest = before.skip(320);
    crate::context::lemma_ctx_len(m);
    state::lemma_state_read_back(front, m, rest);
    lemma_framed(before, m.encoded());
    law_state_in_account(front + m.encoded() + rest);
    lemma_state_padding(front + m.encoded() + rest, front, m, rest);
}

/// What surrounds the 256 bytes behind the answer.
proof fn lemma_framed(before: Seq<u8>, middle: Seq<u8>)
    requires
        before.len() >= 320,
        middle.len() == 256,
    ensures
        ({
            let written = before.take(64) + middle + before.skip(320);
            &&& written.len() == before.len()
            &&& forall|i: int|
                0 <= i < 64 || 320 <= i < before.len() ==> #[trigger] written[i] == before[i]
        }),
{
}

/// The first byte says what an instruction is: 0 a call, 2 a set-up, 3 a batch.
/// Calls and batches need an account that was set up; only a batch returns bytes.
pub proof fn law_instructions_by_tag(
    program_id: Seq<u8>,
    accounts: Seq<Account>,
    instruction: Seq<u8>,
)
    ensures
        ({
            let outcome = processor::instruction_outcome(program_id, accounts, instruction);
            let refusal = accounts_refusal(program_id, accounts);
            let key = accounts[0].key@;
            let data = accounts[1].data@;
            let known = instruction.len() > 0 && (instruction[0] == 0 || instruction[0] == 2
                || instruction[0] == 3);
            if !known {
                outcome == Err::<(Seq<u8>, Option<Seq<u8>>), MatcherError>(
                    MatcherError::InvalidInstructionData,
                )
            } else if refusal is Some {
                outcome == Err::<(Seq<u8>, Option<Seq<u8>>), MatcherError>(refusal->Some_0)
            } else if instruction[0] == 2 {
                match processor::init_outcome(program_id, accounts, instruction) {
                    Ok(written) => outcome == Ok::<(Seq<u8>, Option<Seq<u8>>), MatcherError>(
                        (written, None),
                    ),
                    Err(e) => outcome == Err::<(Seq<u8>, Option<Seq<u8>>), MatcherError>(e),
                }
            } else if wire::le8(data, 64) != 0x5045_5243_4d41_5443 {
                outcome == Err::<(Seq<u8>, Option<Seq<u8>>), MatcherError>(
                    MatcherError::UninitializedAccount,
                )
            } else if instruction[0] == 0 {
                match calls::call_outcome(key, data, instruction) {
                    Ok(written) => outcome == Ok::<(Seq<u8>, Option<Seq<u8>>), MatcherError>(
                        (written, None),
                    ),
                    Err(e) => outcome == Err::<(Seq<u8>, Option<Seq<u8>>), MatcherError>(e),
                }
            } else {
                match calls::batch_outcome(key, data, instruction) {
                    Ok((written, returned)) => outcome == Ok::<
                        (Seq<u8>, Option<Seq<u8>>),
                        MatcherError,
                    >((written, Some(returned))),
                    Err(e) => outcome == Err::<(Seq<u8>, Option<Seq<u8>>), MatcherError>(e),
                }
            }
        }),
{
    if accounts_refusal(program_id, accounts) is None {
        wire::law_state_needs_mark(accounts[1].data@.skip(64));
        lemma_behind_answer(accounts[1].data@, 0, 8);
    }
}

/// Calls and batches on their own, with their accounts checked first.
pub proof fn law_checked_calls(program_id: Seq<u8>, accounts: Seq<Account>, instruction: Seq<u8>)
    ensures
        ({
            let single = processor::matcher_call_outcome(program_id, accounts, instruction);
            let batch = processor::batch_matcher_call_outcome(program_id, accounts, instruction);
            let refusal = accounts_refusal(program_id, accounts);
            let key = accounts[0].key@;
            let data = accounts[1].data@;
            if refusal is Some {
                &&& single == Err::<Seq<u8>, MatcherError>(refusal->Some_0)
                &&& batch == Err::<(Seq<u8>, Seq<u8>), MatcherError>(refusal->Some_0)
            } else if wire::le8(data, 64) != 0x5045_5243_4d41_5443 {
                &&& single == Err::<Seq<u8>, MatcherError>(MatcherError::UninitializedAccount)
                &&& batch == Err::<(Seq<u8>, Seq<u8>), MatcherError>(
                    MatcherError::UninitializedAccount,
                )
            } else {
                &&& single == calls::call_outcome(key, data, instruction)
                &&& batch == calls::batch_outcome(key, data, instruction)
            }
        }),
{
    if accounts_refusal(program_id, accounts) is None {
        wire::law_state_needs_mark(accounts[1].data@.skip(64));
        lemma_behind_answer(accounts[1].data@, 0, 8);
    }
}

/// An instruction changes the data of the context account and nothing else of any
/// account.
pub proof fn law_only_context_data_changes(before: Seq<Account>, after: Seq<Account>, data: Seq<u8>)
    requires
        processor::updated(before, after, data),
    ensures
        after.len() == before.len(),
        before.len() >= 2,
        after[1].data@ == data,
        after[1].key == before[1].key,
        after[1].owner == before[1].owner,
        after[1].is_signer == before[1].is_signer,
        after[1].is_writable == before[1].is_writable,
        forall|i: int| 0 <= i < before.len() && i != 1 ==> after[i] == before[i],
{
}

/// A call changes the data of its context account and nothing else of it.
pub proof fn law_only_data_changes(before: Account, after: Account, data: Seq<u8>)
    requires
        calls::rewritten(before, after, data),
    ensures
        after.data@ == data,
        after.key == before.key,
        after.owner == before.owner,
        after.is_signer == before.is_signer,
        after.is_writable == before.is_writable,
{
}

} // verus!
