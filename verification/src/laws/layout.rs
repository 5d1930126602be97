//! Reading gives back what was written.
use vstd::prelude::*;

use crate::abi::{
    MatcherReturn, CTX_RETURN_OFFSET, CTX_VAMM_LEN, CTX_VAMM_OFFSET, MATCHER_BATCH_MAX_LEGS,
    MATCHER_CONTEXT_LEN, MATCHER_INIT_VAMM_TAG, MATCHER_RETURN_LEN,
};
use crate::bytes;
use crate::context::{CtxModel, MATCHER_MAGIC};
use crate::error::MatcherError;
use crate::init::{InitParams, INIT_CTX_LEN, INIT_CTX_LEN_V3};

verus! {

/// Bytes that hold an integer at some offset are read as that integer.
proof fn lemma_reads_back(s: Seq<u8>, at: int)
    ensures
        forall|v: u16|
            #![trigger bytes::le_bytes(v as nat, 2)]
            s.subrange(at, at + 2) == bytes::le_bytes(v as nat, 2) ==> bytes::u16_at(s, at) == v,
        forall|v: u32|
            #![trigger bytes::le_bytes(v as nat, 4)]
            s.subrange(at, at + 4) == bytes::le_bytes(v as nat, 4) ==> bytes::u32_at(s, at) == v,
        forall|v: u64|
            #![trigger bytes::le_bytes(v as nat, 8)]
            s.subrange(at, at + 8) == bytes::le_bytes(v as nat, 8) ==> bytes::u64_at(s, at) == v,
        forall|v: u128|
            #![trigger bytes::le_bytes(v as nat, 16)]
            s.subrange(at, at + 16) == bytes::le_bytes(v as nat, 16) ==> bytes::u128_at(s, at) == v,
        forall|v: i128|
            #![trigger bytes::signed_pattern(v as int)]
            s.subrange(at, at + 16) == bytes::le_bytes(bytes::signed_pattern(v as int), 16)
                ==> bytes::i128_at(s, at) == v,
{
    bytes::lemma_byte_range_widths();
    assert forall|v: u16|
        #![trigger bytes::le_bytes(v as nat, 2)]
        s.subrange(at, at + 2) == bytes::le_bytes(v as nat, 2) implies bytes::u16_at(s, at) == v by {
        bytes::lemma_le_value_of_le_bytes(v as nat, 2);
    }
    assert forall|v: u32|
        #![trigger bytes::le_bytes(v as nat, 4)]
        s.subrange(at, at + 4) == bytes::le_bytes(v as nat, 4) implies bytes::u32_at(s, at) == v by {
        bytes::lemma_le_value_of_le_bytes(v as nat, 4);
    }
    assert forall|v: u64|
        #![trigger bytes::le_bytes(v as nat, 8)]
        s.subrange(at, at + 8) == bytes::le_bytes(v as nat, 8) implies bytes::u64_at(s, at) == v by {
        bytes::lemma_le_value_of_le_bytes(v as nat, 8);
    }
    assert forall|v: u128|
        #![trigger bytes::le_bytes(v as nat, 16)]
        s.subrange(at, at + 16) == bytes::le_bytes(v as nat, 16) implies bytes::u128_at(s, at)
        == v by {
        bytes::lemma_le_value_of_le_bytes(v as nat, 16);
    }
    assert forall|v: i128|
        #![trigger bytes::signed_pattern(v as int)]
        s.subrange(at, at + 16) == bytes::le_bytes(
            bytes::signed_pattern(v as int),
            16,
        ) implies bytes::i128_at(s, at) == v by {
        bytes::lemma_le_value_of_le_bytes(bytes::signed_pattern(v as int), 16);
    }
}

/// The answer and the state fill the context account without a gap or an overlap,
/// and the answers of the largest batch fill 1024 bytes.
pub proof fn law_account_layout()
    ensures
        CTX_RETURN_OFFSET + MATCHER_RETURN_LEN == CTX_VAMM_OFFSET,
        CTX_VAMM_OFFSET + CTX_VAMM_LEN == MATCHER_CONTEXT_LEN,
        MATCHER_BATCH_MAX_LEGS * MATCHER_RETURN_LEN == 1024,
{
}

/// Every field of an answer is found at its fixed offset, whatever follows the
/// record.
pub proof fn law_return_fields(r: MatcherReturn, rest: Seq<u8>)
    ensures
        r.encoded().len() == MATCHER_RETURN_LEN,
        bytes::u32_at(r.encoded() + rest, 0) == r.abi_version,
        bytes::u32_at(r.encoded() + rest, 4) == r.flags,
        bytes::u64_at(r.encoded() + rest, 8) == r.exec_price_e6,
        bytes::i128_at(r.encoded() + rest, 16) == r.exec_size,
        bytes::u64_at(r.encoded() + rest, 32) == r.req_id,
        bytes::u64_at(r.encoded() + rest, 40) == r.lp_account_id,
        bytes::u64_at(r.encoded() + rest, 48) == r.oracle_price_e6,
        bytes::u64_at(r.encoded() + rest, 56) == r.asset_index,
{
    broadcast use crate::bytes::lemma_le_bytes_len;

    let s = r.encoded() + rest;
    assert(s.subrange(0, 4) =~= bytes::le_bytes(r.abi_version as nat, 4));
    lemma_reads_back(s, 0);
    assert(s.subrange(4, 8) =~= bytes::le_bytes(r.flags as nat, 4));
    lemma_reads_back(s, 4);
    assert(s.subrange(8, 16) =~= bytes::le_bytes(r.exec_price_e6 as nat, 8));
    lemma_reads_back(s, 8);
    assert(s.subrange(16, 32) =~= bytes::le_bytes(bytes::signed_pattern(r.exec_size as int), 16));
    lemma_reads_back(s, 16);
    assert(s.subrange(32, 40) =~= bytes::le_bytes(r.req_id as nat, 8));
    lemma_reads_back(s, 32);
    assert(s.subrange(40, 48) =~= bytes::le_bytes(r.lp_account_id as nat, 8));
    lemma_reads_back(s, 40);
    assert(s.subrange(48, 56) =~= bytes::le_bytes(r.oracle_price_e6 as nat, 8));
    lemma_reads_back(s, 48);
    assert(s.subrange(56, 64) =~= bytes::le_bytes(r.asset_index as nat, 8));
    lemma_reads_back(s, 56);
}

/// Parameters that are written and read come back unchanged, whatever follows them.
/// Cut anywhere behind the inventory bound, they come back with zeros for insurance,
/// skew and number; cut before, they are refused.
pub proof fn law_init_params_round_trip(p: InitParams, rest: Seq<u8>)
    ensures
        InitParams::parsed(p.encoded() + rest) == Ok::<InitParams, MatcherError>(p),
        forall|k: int|
            INIT_CTX_LEN_V3 <= k < INIT_CTX_LEN ==> InitParams::parsed(
                #[trigger] p.encoded().take(k),
            ) == Ok::<InitParams, MatcherError>(
                InitParams {
                    fee_to_insurance_bps: 0,
                    skew_spread_mult_bps: 0,
                    lp_account_id: 0,
                    ..p
                },
            ),
        forall|k: int|
            0 <= k < INIT_CTX_LEN_V3 ==> InitParams::parsed(#[trigger] p.encoded().take(k)) == Err::<
                InitParams,
                MatcherError,
            >(MatcherError::InvalidInstructionData),
{
    crate::init::lemma_init_len(p);
    let s = p.encoded() + rest;
    assert(s.take(66) =~= p.encoded().take(66));
    lemma_init_fields(p, s);
    lemma_init_extras(p, rest);
    assert forall|k: int| INIT_CTX_LEN_V3 <= k < INIT_CTX_LEN implies InitParams::parsed(
        #[trigger] p.encoded().take(k),
    ) == Ok::<InitParams, MatcherError>(
        InitParams { fee_to_insurance_bps: 0, skew_spread_mult_bps: 0, lp_account_id: 0, ..p },
    ) by {
        let t = p.encoded().take(k);
        assert(t.take(66) =~= p.encoded().take(66));
        lemma_init_fields(p, t);
    }
}

/// What the full form adds.
proof fn lemma_init_extras(p: InitParams, rest: Seq<u8>)
    ensures
        bytes::u16_at(p.encoded() + rest, 66) == p.fee_to_insurance_bps,
        bytes::u16_at(p.encoded() + rest, 68) == p.skew_spread_mult_bps,
        bytes::u64_at(p.encoded() + rest, 70) == p.lp_account_id,
{
    broadcast use crate::bytes::lemma_le_bytes_len;

    let s = p.encoded() + rest;
    assert(s.subrange(66, 68) =~= bytes::le_bytes(p.fee_to_insurance_bps as nat, 2));
    lemma_reads_back(s, 66);
    assert(s.subrange(68, 70) =~= bytes::le_bytes(p.skew_spread_mult_bps as nat, 2));
    lemma_reads_back(s, 68);
    assert(s.subrange(70, 78) =~= bytes::le_bytes(p.lp_account_id as nat, 8));
    lemma_reads_back(s, 70);
}

/// The fields of `p` in `s`, which starts with the short form of `p`.
proof fn lemma_init_fields(p: InitParams, s: Seq<u8>)
    requires
        s.len() >= INIT_CTX_LEN_V3,
        s.take(INIT_CTX_LEN_V3 as int) == p.encoded().take(INIT_CTX_LEN_V3 as int),
    ensures
        s[0] == MATCHER_INIT_VAMM_TAG,
        s[1] == p.kind,
        bytes::u32_at(s, 2) == p.trading_fee_bps,
        bytes::u32_at(s, 6) == p.base_spread_bps,
        bytes::u32_at(s, 10) == p.max_total_bps,
        bytes::u32_at(s, 14) == p.impact_k_bps,
        bytes::u128_at(s, 18) == p.liquidity_notional_e6,
        bytes::u128_at(s, 34) == p.max_fill_abs,
        bytes::u128_at(s, 50) == p.max_inventory_abs,
{
    broadcast use crate::bytes::lemma_le_bytes_len;

    crate::init::lemma_init_len(p);
    let t = p.encoded();
    assert forall|i: int| 0 <= i < 66 implies s[i] == t[i] by {
        assert(s.take(66)[i] == s[i] && t.take(66)[i] == t[i]);
    }
    assert(s.subrange(2, 6) =~= bytes::le_bytes(p.trading_fee_bps as nat, 4));
    lemma_reads_back(s, 2);
    assert(s.subrange(6, 10) =~= bytes::le_bytes(p.base_spread_bps as nat, 4));
    lemma_reads_back(s, 6);
    assert(s.subrange(10, 14) =~= bytes::le_bytes(p.max_total_bps as nat, 4));
    lemma_reads_back(s, 10);
    assert(s.subrange(14, 18) =~= bytes::le_bytes(p.impact_k_bps as nat, 4));
    lemma_reads_back(s, 14);
    assert(s.subrange(18, 34) =~= bytes::le_bytes(p.liquidity_notional_e6 as nat, 16));
    lemma_reads_back(s, 18);
    assert(s.subrange(34, 50) =~= bytes::le_bytes(p.max_fill_abs as nat, 16));
    lemma_reads_back(s, 34);
    assert(s.subrange(50, 66) =~= bytes::le_bytes(p.max_inventory_abs as nat, 16));
    lemma_reads_back(s, 50);
}

/// A state that is written and read comes back unchanged but for its padding,
/// which comes back as zeros, whatever follows it. Without the mark of a state that
/// was set up it is not read.
#[verifier::rlimit(30)]
pub proof fn law_state_round_trip(m: CtxModel, rest: Seq<u8>)
    requires
        m.sized(),
    ensures
        m.encoded().len() == CTX_VAMM_LEN,
        CtxModel::decoded(m.encoded() + rest) == (CtxModel {
            pad0: bytes::zeros(3),
            new_pad: bytes::zeros(4),
            ..m
        }),
        CtxModel::stored(m.encoded() + rest) == (if m.magic == MATCHER_MAGIC {
            Ok(CtxModel::decoded(m.encoded() + rest))
        } else {
            Err(MatcherError::UninitializedAccount)
        }),
{
    broadcast use crate::bytes::lemma_le_bytes_len;

    let s = m.encoded() + rest;
    lemma_state_head(m, rest);
    lemma_state_tail(m, rest);
    let d = CtxModel::decoded(s);
    assert(d.lp_pda =~= m.lp_pda);
    assert(d.reserved =~= m.reserved);
}

/// The fields of an encoded state up to the fill limit.
#[verifier::rlimit(30)]
proof fn lemma_state_head(m: CtxModel, rest: Seq<u8>)
    requires
        m.sized(),
    ensures
        bytes::u64_at(m.encoded() + rest, 0) == m.magic,
        bytes::u32_at(m.encoded() + rest, 8) == m.version,
        (m.encoded() + rest)[12] == m.kind,
        (m.encoded() + rest).subrange(16, 48) == m.lp_pda,
        bytes::u32_at(m.encoded() + rest, 48) == m.trading_fee_bps,
        bytes::u32_at(m.encoded() + rest, 52) == m.base_spread_bps,
        bytes::u32_at(m.encoded() + rest, 56) == m.max_total_bps,
        bytes::u32_at(m.encoded() + rest, 60) == m.impact_k_bps,
        bytes::u128_at(m.encoded() + rest, 64) == m.liquidity_notional_e6,
        bytes::u128_at(m.encoded() + rest, 80) == m.max_fill_abs,
{
    broadcast use crate::bytes::lemma_le_bytes_len;

    let s = m.encoded() + rest;
    assert(s.subrange(0, 8) =~= bytes::le_bytes(m.magic as nat, 8));
    lemma_reads_back(s, 0);
    assert(s.subrange(8, 12) =~= bytes::le_bytes(m.version as nat, 4));
    lemma_reads_back(s, 8);
    assert(s.subrange(16, 48) =~= m.lp_pda);
    assert(s.subrange(48, 52) =~= bytes::le_bytes(m.trading_fee_bps as nat, 4));
    lemma_reads_back(s, 48);
    assert(s.subrange(52, 56) =~= bytes::le_bytes(m.base_spread_bps as nat, 4));
    lemma_reads_back(s, 52);
    assert(s.subrange(56, 60) =~= bytes::le_bytes(m.max_total_bps as nat, 4));
    lemma_reads_back(s, 56);
    assert(s.subrange(60, 64) =~= bytes::le_bytes(m.impact_k_bps as nat, 4));
    lemma_reads_back(s, 60);
    assert(s.subrange(64, 80) =~= bytes::le_bytes(m.liquidity_notional_e6 as nat, 16));
    lemma_reads_back(s, 64);
    assert(s.subrange(80, 96) =~= bytes::le_bytes(m.max_fill_abs as nat, 16));
    lemma_reads_back(s, 80);
}

/// The fields of an encoded state from the position on.
#[verifier::rlimit(30)]
proof fn lemma_state_tail(m: CtxModel, rest: Seq<u8>)
    requires
        m.sized(),
    ensures
        bytes::i128_at(m.encoded() + rest, 96) == m.inventory_base,
        bytes::u64_at(m.encoded() + rest, 112) == m.last_oracle_price_e6,
        bytes::u64_at(m.encoded() + rest, 120) == m.last_exec_price_e6,
        bytes::u128_at(m.encoded() + rest, 128) == m.max_inventory_abs,
        bytes::u64_at(m.encoded() + rest, 144) == m.insurance_accrued_e6,
        bytes::u16_at(m.encoded() + rest, 152) == m.fee_to_insurance_bps,
        bytes::u16_at(m.encoded() + rest, 154) == m.skew_spread_mult_bps,
        bytes::u64_at(m.encoded() + rest, 160) == m.lp_account_id,
        bytes::u64_at(m.encoded() + rest, 168) == m.insurance_fee_remainder_e6,
        (m.encoded() + rest).subrange(176, 256) == m.reserved,
{
    broadcast use crate::bytes::lemma_le_bytes_len;

    let s = m.encoded() + rest;
    assert(s.subrange(96, 112) =~= bytes::le_bytes(
        bytes::signed_pattern(m.inventory_base as int),
        16,
    ));
    lemma_reads_back(s, 96);
    assert(s.subrange(112, 120) =~= bytes::le_bytes(m.last_oracle_price_e6 as nat, 8));
    lemma_reads_back(s, 112);
    assert(s.subrange(120, 128) =~= bytes::le_bytes(m.last_exec_price_e6 as nat, 8));
    lemma_reads_back(s, 120);
    assert(s.subrange(128, 144) =~= bytes::le_bytes(m.max_inventory_abs as nat, 16));
    lemma_reads_back(s, 128);
    assert(s.subrange(144, 152) =~= bytes::le_bytes(m.insurance_accrued_e6 as nat, 8));
    lemma_reads_back(s, 144);
    assert(s.subrange(152, 154) =~= bytes::le_bytes(m.fee_to_insurance_bps as nat, 2));
    lemma_reads_back(s, 152);
    assert(s.subrange(154, 156) =~= bytes::le_bytes(m.skew_spread_mult_bps as nat, 2));
    lemma_reads_back(s, 154);
    assert(s.subrange(160, 168) =~= bytes::le_bytes(m.lp_account_id as nat, 8));
    lemma_reads_back(s, 160);
    assert(s.subrange(168, 176) =~= bytes::le_bytes(m.insurance_fee_remainder_e6 as nat, 8));
    lemma_reads_back(s, 168);
    assert(s.subrange(176, 256) =~= m.reserved);
}

/// Integers that are read and written give the same bytes.
proof fn lemma_writes_back(s: Seq<u8>, at: int)
    requires
        0 <= at,
    ensures
        at + 2 <= s.len() ==> bytes::le_bytes(bytes::u16_at(s, at) as nat, 2) == s.subrange(
            at,
            at + 2,
        ),
        at + 4 <= s.len() ==> bytes::le_bytes(bytes::u32_at(s, at) as nat, 4) == s.subrange(
            at,
            at + 4,
        ),
        at + 8 <= s.len() ==> bytes::le_bytes(bytes::u64_at(s, at) as nat, 8) == s.subrange(
            at,
            at + 8,
        ),
        at + 16 <= s.len() ==> bytes::le_bytes(bytes::u128_at(s, at) as nat, 16) == s.subrange(
            at,
            at + 16,
        ),
        at + 16 <= s.len() ==> bytes::le_bytes(
            bytes::signed_pattern(bytes::i128_at(s, at) as int),
            16,
        ) == s.subrange(at, at + 16),
{
    bytes::lemma_byte_range_widths();
    if at + 2 <= s.len() {
        bytes::lemma_le_value_bound(s.subrange(at, at + 2));
        bytes::lemma_le_bytes_of_le_value(s.subrange(at, at + 2));
    }
    if at + 4 <= s.len() {
        bytes::lemma_le_value_bound(s.subrange(at, at + 4));
        bytes::lemma_le_bytes_of_le_value(s.subrange(at, at + 4));
    }
    if at + 8 <= s.len() {
        bytes::lemma_le_value_bound(s.subrange(at, at + 8));
        bytes::lemma_le_bytes_of_le_value(s.subrange(at, at + 8));
    }
    if at + 16 <= s.len() {
        bytes::lemma_le_value_bound(s.subrange(at, at + 16));
        bytes::lemma_le_bytes_of_le_value(s.subrange(at, at + 16));
    }
}

/// A state that is read and written gives the same 256 bytes, with its padding set
/// to zero.
#[verifier::rlimit(30)]
pub proof fn law_state_rewrites_itself(data: Seq<u8>)
    requires
        data.len() >= CTX_VAMM_LEN,
    ensures
        CtxModel::decoded(data).encoded() == data.take(13) + bytes::zeros(3) + data.subrange(
            16,
            156,
        ) + bytes::zeros(4) + data.subrange(160, 256),
{
    broadcast use crate::bytes::lemma_le_bytes_len;

    lemma_writes_back(data, 0);
    lemma_writes_back(data, 8);
    lemma_writes_back(data, 48);
    lemma_writes_back(data, 52);
    lemma_writes_back(data, 56);
    lemma_writes_back(data, 60);
    lemma_writes_back(data, 64);
    lemma_writes_back(data, 80);
    lemma_writes_back(data, 96);
    lemma_writes_back(data, 112);
    lemma_writes_back(data, 120);
    lemma_writes_back(data, 128);
    lemma_writes_back(data, 144);
    lemma_writes_back(data, 152);
    lemma_writes_back(data, 154);
    lemma_writes_back(data, 160);
    lemma_writes_back(data, 168);
    let cuts = data.subrange(0, 8) + data.subrange(8, 12) + seq![data[12]] + bytes::zeros(3)
        + data.subrange(16, 48) + data.subrange(48, 52) + data.subrange(52, 56) + data.subrange(
        56,
        60,
    ) + data.subrange(60, 64) + data.subrange(64, 80) + data.subrange(80, 96) + data.subrange(
        96,
        112,
    ) + data.subrange(112, 120) + data.subrange(120, 128) + data.subrange(128, 144) + data.subrange(
        144,
        152,
    ) + data.subrange(152, 154) + data.subrange(154, 156) + bytes::zeros(4) + data.subrange(
        160,
        168,
    ) + data.subrange(168, 176) + data.subrange(176, 256);
    assert(CtxModel::decoded(data).encoded() == cuts);
    assert(cuts =~= data.take(13) + bytes::zeros(3) + data.subrange(16, 156) + bytes::zeros(4)
        + data.subrange(160, 256));
}

} // verus!
