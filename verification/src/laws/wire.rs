//! What the bytes are: every integer and every layout, spelled out byte by byte.
use vstd::prelude::*;

use crate::abi::{MatcherCall, MatcherReturn};
use crate::bytes;
use crate::context;
use crate::context::{CtxModel, MatcherCtx, MatcherKind};
use crate::error::MatcherError;
use crate::init::InitParams;
use crate::laws::layout;

verus! {

/// Two bytes, the low one first.
pub open spec fn le2(s: Seq<u8>, at: int) -> int {
    s[at] + 0x100 * s[at + 1]
}

/// Four bytes, the lowest first.
pub open spec fn le4(s: Seq<u8>, at: int) -> int {
    le2(s, at) + 0x1_0000 * le2(s, at + 2)
}

/// Eight bytes, the lowest first.
pub open spec fn le8(s: Seq<u8>, at: int) -> int {
    le4(s, at) + 0x1_0000_0000 * le4(s, at + 4)
}

/// Sixteen bytes, the lowest first.
pub open spec fn le16(s: Seq<u8>, at: int) -> int {
    le8(s, at) + 0x1_0000_0000_0000_0000 * le8(s, at + 8)
}

/// Sixteen bytes, the lowest first, the topmost bit counting negative.
pub open spec fn signed16(s: Seq<u8>, at: int) -> int {
    if s[at + 15] < 0x80 {
        le16(s, at)
    } else {
        le16(s, at) - 0x1_0000_0000_0000_0000_0000_0000_0000_0000
    }
}

/// The first byte of a number counts once, the rest 256 times.
proof fn lemma_first_byte(s: Seq<u8>, at: int, n: nat)
    requires
        0 <= at,
        at + n < s.len(),
    ensures
        bytes::le_value(s.subrange(at, at + n + 1)) == s[at] + 0x100 * bytes::le_value(
            s.subrange(at + 1, at + 1 + n),
        ),
{
    assert(s.subrange(at, at + n + 1).drop_first() =~= s.subrange(at + 1, at + 1 + n));
}

/// The value of one or two bytes.
proof fn lemma_two_bytes(s: Seq<u8>, at: int)
    requires
        0 <= at,
        at + 2 <= s.len(),
    ensures
        bytes::le_value(s.subrange(at, at + 2)) == le2(s, at),
{
    lemma_first_byte(s, at, 1);
    lemma_first_byte(s, at + 1, 0);
    assert(s.subrange(at + 2, at + 2) =~= Seq::<u8>::empty());
}

/// A number in two halves.
proof fn lemma_halves(s: Seq<u8>, at: int, n: nat, k: nat)
    requires
        0 <= at,
        at + n + k <= s.len(),
    ensures
        bytes::le_value(s.subrange(at, at + n + k)) == bytes::le_value(s.subrange(at, at + n))
            + bytes::byte_range(n) * bytes::le_value(s.subrange(at + n, at + n + k)),
    decreases n,
{
    let high = bytes::le_value(s.subrange(at + n, at + n + k)) as int;
    if n == 0 {
        assert(s.subrange(at, at) =~= Seq::<u8>::empty());
        assert(bytes::byte_range(0) == 1);
        assert(bytes::byte_range(n) * high == high) by (nonlinear_arith)
            requires
                bytes::byte_range(n) == 1,
        ;
    } else {
        let low = bytes::le_value(s.subrange(at + 1, at + n)) as int;
        let w = bytes::byte_range((n - 1) as nat) as int;
        lemma_halves(s, at + 1, (n - 1) as nat, k);
        lemma_first_byte(s, at, (n - 1 + k) as nat);
        lemma_first_byte(s, at, (n - 1) as nat);
        assert(bytes::byte_range(n) * high == 0x100 * (w * high)) by (nonlinear_arith)
            requires
                bytes::byte_range(n) == 0x100 * w,
        ;
        assert(s.subrange(at + 1, at + 1 + (n - 1) + k) == s.subrange(at + 1, at + n + k));
        assert(bytes::le_value(s.subrange(at + 1, at + n + k)) == low + w * high);
    }
}

/// The integers that the layouts are made of: two, four, eight or sixteen bytes, the
/// lowest first, signed ones in two's complement.
pub proof fn law_integers_on_the_wire(s: Seq<u8>, at: int)
    requires
        0 <= at,
    ensures
        at + 2 <= s.len() ==> bytes::u16_at(s, at) == le2(s, at),
        at + 4 <= s.len() ==> bytes::u32_at(s, at) == le4(s, at),
        at + 8 <= s.len() ==> bytes::u64_at(s, at) == le8(s, at),
        at + 16 <= s.len() ==> bytes::u128_at(s, at) == le16(s, at),
        at + 16 <= s.len() ==> bytes::i128_at(s, at) == signed16(s, at),
{
    bytes::lemma_byte_range_widths();
    if at + 2 <= s.len() {
        lemma_two_bytes(s, at);
    }
    if at + 4 <= s.len() {
        lemma_two_bytes(s, at + 2);
        lemma_halves(s, at, 2, 2);
    }
    if at + 8 <= s.len() {
        lemma_four_bytes(s, at);
        lemma_four_bytes(s, at + 4);
        lemma_halves(s, at, 4, 4);
    }
    if at + 16 <= s.len() {
        lemma_eight_bytes(s, at);
        lemma_eight_bytes(s, at + 8);
        lemma_halves(s, at, 8, 8);
    }
}

/// The value of four bytes.
proof fn lemma_four_bytes(s: Seq<u8>, at: int)
    requires
        0 <= at,
        at + 4 <= s.len(),
    ensures
        bytes::le_value(s.subrange(at, at + 4)) == le4(s, at),
{
    bytes::lemma_byte_range_widths();
    lemma_two_bytes(s, at);
    lemma_two_bytes(s, at + 2);
    lemma_halves(s, at, 2, 2);
}

/// The value of eight bytes.
proof fn lemma_eight_bytes(s: Seq<u8>, at: int)
    requires
        0 <= at,
        at + 8 <= s.len(),
    ensures
        bytes::le_value(s.subrange(at, at + 8)) == le8(s, at),
{
    bytes::lemma_byte_range_widths();
    lemma_four_bytes(s, at);
    lemma_four_bytes(s, at + 4);
    lemma_halves(s, at, 4, 4);
}

/// Eight bytes are known from their value.
pub(crate) proof fn lemma_same_eight(s: Seq<u8>, at: int, t: Seq<u8>, other: int)
    requires
        0 <= at,
        at + 8 <= s.len(),
        0 <= other,
        other + 8 <= t.len(),
        le8(s, at) == le8(t, other),
    ensures
        s.subrange(at, at + 8) == t.subrange(other, other + 8),
{
    lemma_eight_bytes(s, at);
    lemma_eight_bytes(t, other);
    bytes::lemma_le_bytes_of_le_value(s.subrange(at, at + 8));
    bytes::lemma_le_bytes_of_le_value(t.subrange(other, other + 8));
}

/// Writing over a sequence changes the bytes that are written over, and no others.
pub proof fn law_overwritten_bytes(s: Seq<u8>, at: int, src: Seq<u8>, i: int)
    requires
        0 <= at,
        at + src.len() <= s.len(),
        0 <= i < s.len(),
    ensures
        bytes::overwritten(s, at, src).len() == s.len(),
        bytes::overwritten(s, at, src)[i] == (if at <= i < at + src.len() {
            src[i - at]
        } else {
            s[i]
        }),
{
}

/// The view of a state shows its fields as they are.
pub proof fn law_state_view(ctx: MatcherCtx)
    ensures
        ctx@.magic == ctx.magic,
        ctx@.version == ctx.version,
        ctx@.kind == ctx.kind,
        ctx@.pad0 == ctx._pad0@,
        ctx@.lp_pda == ctx.lp_pda@,
        ctx@.trading_fee_bps == ctx.trading_fee_bps,
        ctx@.base_spread_bps == ctx.base_spread_bps,
        ctx@.max_total_bps == ctx.max_total_bps,
        ctx@.impact_k_bps == ctx.impact_k_bps,
        ctx@.liquidity_notional_e6 == ctx.liquidity_notional_e6,
        ctx@.max_fill_abs == ctx.max_fill_abs,
        ctx@.inventory_base == ctx.inventory_base,
        ctx@.last_oracle_price_e6 == ctx.last_oracle_price_e6,
        ctx@.last_exec_price_e6 == ctx.last_exec_price_e6,
        ctx@.max_inventory_abs == ctx.max_inventory_abs,
        ctx@.insurance_accrued_e6 == ctx.insurance_accrued_e6,
        ctx@.fee_to_insurance_bps == ctx.fee_to_insurance_bps,
        ctx@.skew_spread_mult_bps == ctx.skew_spread_mult_bps,
        ctx@.new_pad == ctx._new_pad@,
        ctx@.lp_account_id == ctx.lp_account_id,
        ctx@.insurance_fee_remainder_e6 == ctx.insurance_fee_remainder_e6,
        ctx@.reserved == ctx._reserved@,
{
}

/// A byte of 0 is the passive kind, 1 the vAMM; no other byte is a kind.
pub proof fn law_kinds(value: u8)
    ensures
        context::kind_of(value) == Ok::<MatcherKind, MatcherError>(MatcherKind::Passive) <==> value
            == 0,
        context::kind_of(value) == Ok::<MatcherKind, MatcherError>(MatcherKind::Vamm) <==> value
            == 1,
        context::kind_of(value) == Err::<MatcherKind, MatcherError>(
            MatcherError::InvalidInstructionData,
        ) <==> value > 1,
{
}

/// A call is read from 67 bytes or more that start with a zero and have zeros from
/// byte 43 on; its fields stand at fixed places.
pub proof fn law_call_on_the_wire(s: Seq<u8>)
    ensures
        match MatcherCall::parsed(s) {
            Ok(call) => {
                &&& s.len() >= 67
                &&& s[0] == 0
                &&& forall|i: int| 43 <= i < 67 ==> s[i] == 0
                &&& call.req_id == le8(s, 1)
                &&& call.asset_index == le2(s, 9)
                &&& call.lp_account_id == le8(s, 11)
                &&& call.oracle_price_e6 == le8(s, 19)
                &&& call.req_size == signed16(s, 27)
            },
            Err(e) => {
                &&& e == MatcherError::InvalidInstructionData
                &&& s.len() < 67 || s[0] != 0 || exists|i: int| 43 <= i < 67 && s[i] != 0
            },
        },
{
    law_integers_on_the_wire(s, 1);
    law_integers_on_the_wire(s, 9);
    law_integers_on_the_wire(s, 11);
    law_integers_on_the_wire(s, 19);
    law_integers_on_the_wire(s, 27);
}

/// The fields of an answer in its 64 bytes, whatever follows them.
pub proof fn law_answer_on_the_wire(r: MatcherReturn, rest: Seq<u8>)
    ensures
        r.encoded().len() == 64,
        le4(r.encoded() + rest, 0) == r.abi_version,
        le4(r.encoded() + rest, 4) == r.flags,
        le8(r.encoded() + rest, 8) == r.exec_price_e6,
        signed16(r.encoded() + rest, 16) == r.exec_size,
        le8(r.encoded() + rest, 32) == r.req_id,
        le8(r.encoded() + rest, 40) == r.lp_account_id,
        le8(r.encoded() + rest, 48) == r.oracle_price_e6,
        le8(r.encoded() + rest, 56) == r.asset_index,
{
    let s = r.encoded() + rest;
    layout::law_return_fields(r, rest);
    law_integers_on_the_wire(s, 0);
    law_integers_on_the_wire(s, 4);
    law_integers_on_the_wire(s, 8);
    law_integers_on_the_wire(s, 16);
    law_integers_on_the_wire(s, 32);
    law_integers_on_the_wire(s, 40);
    law_integers_on_the_wire(s, 48);
    law_integers_on_the_wire(s, 56);
}

/// The fields of a state in 256 bytes. The padding is not read.
pub proof fn law_state_read_from_wire(s: Seq<u8>)
    requires
        s.len() >= 256,
    ensures
        ({
            let m = CtxModel::decoded(s);
            &&& m.magic == le8(s, 0)
            &&& m.version == le4(s, 8)
            &&& m.kind == s[12]
            &&& m.pad0.len() == 3 && forall|i: int| 0 <= i < 3 ==> m.pad0[i] == 0
            &&& m.lp_pda == s.subrange(16, 48)
            &&& m.trading_fee_bps == le4(s, 48)
            &&& m.base_spread_bps == le4(s, 52)
            &&& m.max_total_bps == le4(s, 56)
            &&& m.impact_k_bps == le4(s, 60)
            &&& m.liquidity_notional_e6 == le16(s, 64)
            &&& m.max_fill_abs == le16(s, 80)
            &&& m.inventory_base == signed16(s, 96)
            &&& m.last_oracle_price_e6 == le8(s, 112)
            &&& m.last_exec_price_e6 == le8(s, 120)
            &&& m.max_inventory_abs == le16(s, 128)
            &&& m.insurance_accrued_e6 == le8(s, 144)
            &&& m.fee_to_insurance_bps == le2(s, 152)
            &&& m.skew_spread_mult_bps == le2(s, 154)
            &&& m.new_pad.len() == 4 && forall|i: int| 0 <= i < 4 ==> m.new_pad[i] == 0
            &&& m.lp_account_id == le8(s, 160)
            &&& m.insurance_fee_remainder_e6 == le8(s, 168)
            &&& m.reserved == s.subrange(176, 256)
        }),
{
    law_integers_on_the_wire(s, 0);
    law_integers_on_the_wire(s, 8);
    law_integers_on_the_wire(s, 48);
    law_integers_on_the_wire(s, 52);
    law_integers_on_the_wire(s, 56);
    law_integers_on_the_wire(s, 60);
    law_integers_on_the_wire(s, 64);
    law_integers_on_the_wire(s, 80);
    law_integers_on_the_wire(s, 96);
    law_integers_on_the_wire(s, 112);
    law_integers_on_the_wire(s, 120);
    law_integers_on_the_wire(s, 128);
    law_integers_on_the_wire(s, 144);
    law_integers_on_the_wire(s, 152);
    law_integers_on_the_wire(s, 154);
    law_integers_on_the_wire(s, 160);
    law_integers_on_the_wire(s, 168);
}

/// The 256 bytes that a state is written as, whatever follows them.
#[verifier::rlimit(60)]
pub proof fn law_state_written_to_wire(m: CtxModel, rest: Seq<u8>)
    requires
        m.sized(),
    ensures
        m.encoded().len() == 256,
        ({
            let s = m.encoded() + rest;
            &&& le8(s, 0) == m.magic
            &&& le4(s, 8) == m.version
            &&& s[12] == m.kind
            &&& s.subrange(13, 16) == m.pad0
            &&& s.subrange(16, 48) == m.lp_pda
            &&& le4(s, 48) == m.trading_fee_bps
            &&& le4(s, 52) == m.base_spread_bps
            &&& le4(s, 56) == m.max_total_bps
            &&& le4(s, 60) == m.impact_k_bps
            &&& le16(s, 64) == m.liquidity_notional_e6
            &&& le16(s, 80) == m.max_fill_abs
            &&& signed16(s, 96) == m.inventory_base
            &&& le8(s, 112) == m.last_oracle_price_e6
            &&& le8(s, 120) == m.last_exec_price_e6
            &&& le16(s, 128) == m.max_inventory_abs
            &&& le8(s, 144) == m.insurance_accrued_e6
            &&& le2(s, 152) == m.fee_to_insurance_bps
            &&& le2(s, 154) == m.skew_spread_mult_bps
            &&& s.subrange(156, 160) == m.new_pad
            &&& le8(s, 160) == m.lp_account_id
            &&& le8(s, 168) == m.insurance_fee_remainder_e6
            &&& s.subrange(176, 256) == m.reserved
        }),
{
    let s = m.encoded() + rest;
    layout::law_state_round_trip(m, rest);
    law_state_read_from_wire(s);
    lemma_padding(m, rest);
}

/// Where the padding of an encoded state stands.
#[verifier::rlimit(60)]
proof fn lemma_padding(m: CtxModel, rest: Seq<u8>)
    requires
        m.sized(),
    ensures
        (m.encoded() + rest).subrange(13, 16) == m.pad0,
        (m.encoded() + rest).subrange(156, 160) == m.new_pad,
{
    broadcast use crate::bytes::lemma_le_bytes_len;

    let s = m.encoded() + rest;
    assert(s.subrange(13, 16) =~= m.pad0);
    assert(s.subrange(156, 160) =~= m.new_pad);
}

/// A state is read where there are 256 bytes that start with the mark.
pub proof fn law_state_needs_mark(s: Seq<u8>)
    ensures
        CtxModel::marked(s) <==> s.len() >= 8 && le8(s, 0) == 0x5045_5243_4d41_5443,
        CtxModel::stored(s) == (if s.len() < 256 {
            Err(MatcherError::AccountDataTooSmall)
        } else if le8(s, 0) != 0x5045_5243_4d41_5443 {
            Err(MatcherError::UninitializedAccount)
        } else {
            Ok(CtxModel::decoded(s))
        }),
{
    law_integers_on_the_wire(s, 0);
}

/// The parameters in a set-up instruction: 66 bytes or more that start with 2. What
/// stands from byte 66 on counts only where all twelve bytes are there.
pub proof fn law_parameters_on_the_wire(s: Seq<u8>)
    ensures
        match InitParams::parsed(s) {
            Ok(p) => {
                &&& s.len() >= 66
                &&& s[0] == 2
                &&& p.kind == s[1]
                &&& p.trading_fee_bps == le4(s, 2)
                &&& p.base_spread_bps == le4(s, 6)
                &&& p.max_total_bps == le4(s, 10)
                &&& p.impact_k_bps == le4(s, 14)
                &&& p.liquidity_notional_e6 == le16(s, 18)
                &&& p.max_fill_abs == le16(s, 34)
                &&& p.max_inventory_abs == le16(s, 50)
                &&& s.len() >= 78 ==> {
                    &&& p.fee_to_insurance_bps == le2(s, 66)
                    &&& p.skew_spread_mult_bps == le2(s, 68)
                    &&& p.lp_account_id == le8(s, 70)
                }
                &&& s.len() < 78 ==> {
                    &&& p.fee_to_insurance_bps == 0
                    &&& p.skew_spread_mult_bps == 0
                    &&& p.lp_account_id == 0
                }
            },
            Err(e) => e == MatcherError::InvalidInstructionData && (s.len() < 66 || s[0] != 2),
        },
{
    law_integers_on_the_wire(s, 2);
    law_integers_on_the_wire(s, 6);
    law_integers_on_the_wire(s, 10);
    law_integers_on_the_wire(s, 14);
    law_integers_on_the_wire(s, 18);
    law_integers_on_the_wire(s, 34);
    law_integers_on_the_wire(s, 50);
    law_integers_on_the_wire(s, 66);
    law_integers_on_the_wire(s, 68);
    law_integers_on_the_wire(s, 70);
}

/// The 78 bytes that parameters are written as.
pub proof fn law_parameters_written_to_wire(p: InitParams)
    ensures
        ({
            let s = p.encoded();
            &&& s.len() == 78
            &&& s[0] == 2
            &&& s[1] == p.kind
            &&& le4(s, 2) == p.trading_fee_bps
            &&& le4(s, 6) == p.base_spread_bps
            &&& le4(s, 10) == p.max_total_bps
            &&& le4(s, 14) == p.impact_k_bps
            &&& le16(s, 18) == p.liquidity_notional_e6
            &&& le16(s, 34) == p.max_fill_abs
            &&& le16(s, 50) == p.max_inventory_abs
            &&& le2(s, 66) == p.fee_to_insurance_bps
            &&& le2(s, 68) == p.skew_spread_mult_bps
            &&& le8(s, 70) == p.lp_account_id
        }),
{
    let s = p.encoded();
    crate::init::lemma_init_len(p);
    layout::law_init_params_round_trip(p, Seq::empty());
    assert(s + Seq::<u8>::empty() =~= s);
    law_parameters_on_the_wire(s);
}

} // verus!
