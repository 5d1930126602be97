//! The matcher's state: its fields, its 256 bytes and the rules it keeps.
use vstd::prelude::*;

use solana_program::pubkey::Pubkey;

use crate::abi::CTX_VAMM_LEN;
use crate::account;
use crate::bytes;
use crate::error::MatcherError;

verus! {

/// How a provider quotes.
#[derive(Clone, Copy, Debug, PartialEq, Eq, Structural)]
pub enum MatcherKind {
    /// A fixed spread around the oracle price.
    Passive,
    /// The fixed spread widened by the size of the fill.
    Vamm,
}

/// The kind that a byte stands for.
pub open spec fn kind_of(value: u8) -> Result<MatcherKind, MatcherError> {
    if value == 0 {
        Ok(MatcherKind::Passive)
    } else if value == 1 {
        Ok(MatcherKind::Vamm)
    } else {
        Err(MatcherError::InvalidInstructionData)
    }
}

impl TryFrom<u8> for MatcherKind {
    type Error = MatcherError;

    fn try_from(value: u8) -> (r: Result<Self, MatcherError>) {
        match value {
            0 => Ok(MatcherKind::Passive),
            1 => Ok(MatcherKind::Vamm),
            _ => Err(MatcherError::InvalidInstructionData),
        }
    }
}

impl vstd::std_specs::convert::TryFromSpecImpl<u8> for MatcherKind {
    open spec fn obeys_try_from_spec() -> bool {
        true
    }

    open spec fn try_from_spec(v: u8) -> Result<Self, MatcherError> {
        kind_of(v)
    }
}

/// Marks a context account that was set up.
pub const MATCHER_MAGIC: u64 = 0x5045_5243_4d41_5443;

/// Version of the state's layout.
pub const MATCHER_VERSION: u32 = 4;

/// The matcher's state, kept at offset 64 of the context account.
///
/// ```text
/// Offset  Size  Field
/// 0       8     magic
/// 8       4     version
/// 12      1     kind
/// 13      3     _pad0
/// 16      32    lp_pda
/// 48      4     trading_fee_bps
/// 52      4     base_spread_bps
/// 56      4     max_total_bps
/// 60      4     impact_k_bps
/// 64      16    liquidity_notional_e6
/// 80      16    max_fill_abs
/// 96      16    inventory_base
/// 112     8     last_oracle_price_e6
/// 120     8     last_exec_price_e6
/// 128     16    max_inventory_abs
/// 144     8     insurance_accrued_e6
/// 152     2     fee_to_insurance_bps
/// 154     2     skew_spread_mult_bps
/// 156     4     _new_pad
/// 160     8     lp_account_id
/// 168     8     insurance_fee_remainder_e6
/// 176     80    _reserved
/// ```
#[derive(Clone, Copy, Debug)]
pub struct MatcherCtx {
    pub magic: u64,
    pub version: u32,
    /// 0: passive, 1: vAMM.
    pub kind: u8,
    pub _pad0: [u8; 3],
    /// Address of the provider, who must sign every instruction.
    pub lp_pda: [u8; 32],
    pub trading_fee_bps: u32,
    pub base_spread_bps: u32,
    pub max_total_bps: u32,
    /// vAMM only.
    pub impact_k_bps: u32,
    /// vAMM only.
    pub liquidity_notional_e6: u128,
    /// Most that one fill may take; 0 fills nothing.
    pub max_fill_abs: u128,
    /// The provider's position: falls when users buy, rises when they sell.
    pub inventory_base: i128,
    pub last_oracle_price_e6: u64,
    pub last_exec_price_e6: u64,
    /// Bound on the position's size; 0 means none.
    pub max_inventory_abs: u128,
    /// Insurance fee accrued so far.
    pub insurance_accrued_e6: u64,
    /// Part of the trading fee that goes to insurance.
    pub fee_to_insurance_bps: u16,
    /// Spread added per unit of inventory on the side that worsens it; 0 adds none.
    pub skew_spread_mult_bps: u16,
    pub _new_pad: [u8; 4],
    /// Number that every call must name; 0 accepts any.
    pub lp_account_id: u64,
    /// Fraction of an insurance fee unit, in 1e-14, that is not accrued yet.
    pub insurance_fee_remainder_e6: u64,
    pub _reserved: [u8; 80],
}

/// The state's fields, with byte arrays as sequences.
pub struct CtxModel {
    pub magic: u64,
    pub version: u32,
    pub kind: u8,
    pub pad0: Seq<u8>,
    pub lp_pda: Seq<u8>,
    pub trading_fee_bps: u32,
    pub base_spread_bps: u32,
    pub max_total_bps: u32,
    pub impact_k_bps: u32,
    pub liquidity_notional_e6: u128,
    pub max_fill_abs: u128,
    pub inventory_base: i128,
    pub last_oracle_price_e6: u64,
    pub last_exec_price_e6: u64,
    pub max_inventory_abs: u128,
    pub insurance_accrued_e6: u64,
    pub fee_to_insurance_bps: u16,
    pub skew_spread_mult_bps: u16,
    pub new_pad: Seq<u8>,
    pub lp_account_id: u64,
    pub insurance_fee_remainder_e6: u64,
    pub reserved: Seq<u8>,
}

impl View for MatcherCtx {
    type V = CtxModel;

    open spec fn view(&self) -> CtxModel {
        CtxModel {
            magic: self.magic,
            version: self.version,
            kind: self.kind,
            pad0: self._pad0@,
            lp_pda: self.lp_pda@,
            trading_fee_bps: self.trading_fee_bps,
            base_spread_bps: self.base_spread_bps,
            max_total_bps: self.max_total_bps,
            impact_k_bps: self.impact_k_bps,
            liquidity_notional_e6: self.liquidity_notional_e6,
            max_fill_abs: self.max_fill_abs,
            inventory_base: self.inventory_base,
            last_oracle_price_e6: self.last_oracle_price_e6,
            last_exec_price_e6: self.last_exec_price_e6,
            max_inventory_abs: self.max_inventory_abs,
            insurance_accrued_e6: self.insurance_accrued_e6,
            fee_to_insurance_bps: self.fee_to_insurance_bps,
            skew_spread_mult_bps: self.skew_spread_mult_bps,
            new_pad: self._new_pad@,
            lp_account_id: self.lp_account_id,
            insurance_fee_remainder_e6: self.insurance_fee_remainder_e6,
            reserved: self._reserved@,
        }
    }
}

impl CtxModel {
    /// The byte arrays have the lengths that the layout gives them.
    pub open spec fn sized(self) -> bool {
        &&& self.pad0.len() == 3
        &&& self.lp_pda.len() == 32
        &&& self.new_pad.len() == 4
        &&& self.reserved.len() == 80
    }

    /// The 256 bytes of the state, field after field.
    pub open spec fn encoded(self) -> Seq<u8> {
        bytes::le_bytes(self.magic as nat, 8)
            + bytes::le_bytes(self.version as nat, 4)
            + seq![self.kind]
            + self.pad0
            + self.lp_pda
            + bytes::le_bytes(self.trading_fee_bps as nat, 4)
            + bytes::le_bytes(self.base_spread_bps as nat, 4)
            + bytes::le_bytes(self.max_total_bps as nat, 4)
            + bytes::le_bytes(self.impact_k_bps as nat, 4)
            + bytes::le_bytes(self.liquidity_notional_e6 as nat, 16)
            + bytes::le_bytes(self.max_fill_abs as nat, 16)
            + bytes::le_bytes(bytes::signed_pattern(self.inventory_base as int), 16)
            + bytes::le_bytes(self.last_oracle_price_e6 as nat, 8)
            + bytes::le_bytes(self.last_exec_price_e6 as nat, 8)
            + bytes::le_bytes(self.max_inventory_abs as nat, 16)
            + bytes::le_bytes(self.insurance_accrued_e6 as nat, 8)
            + bytes::le_bytes(self.fee_to_insurance_bps as nat, 2)
            + bytes::le_bytes(self.skew_spread_mult_bps as nat, 2)
            + self.new_pad
            + bytes::le_bytes(self.lp_account_id as nat, 8)
            + bytes::le_bytes(self.insurance_fee_remainder_e6 as nat, 8)
            + self.reserved
    }

    /// The state that `data` holds, at the layout's offsets. The padding is not
    /// read: it comes back as zeros.
    pub open spec fn decoded(data: Seq<u8>) -> CtxModel {
        CtxModel {
            magic: bytes::u64_at(data, 0),
            version: bytes::u32_at(data, 8),
            kind: data[12],
            pad0: bytes::zeros(3),
            lp_pda: data.subrange(16, 48),
            trading_fee_bps: bytes::u32_at(data, 48),
            base_spread_bps: bytes::u32_at(data, 52),
            max_total_bps: bytes::u32_at(data, 56),
            impact_k_bps: bytes::u32_at(data, 60),
            liquidity_notional_e6: bytes::u128_at(data, 64),
            max_fill_abs: bytes::u128_at(data, 80),
            inventory_base: bytes::i128_at(data, 96),
            last_oracle_price_e6: bytes::u64_at(data, 112),
            last_exec_price_e6: bytes::u64_at(data, 120),
            max_inventory_abs: bytes::u128_at(data, 128),
            insurance_accrued_e6: bytes::u64_at(data, 144),
            fee_to_insurance_bps: bytes::u16_at(data, 152),
            skew_spread_mult_bps: bytes::u16_at(data, 154),
            new_pad: bytes::zeros(4),
            lp_account_id: bytes::u64_at(data, 160),
            insurance_fee_remainder_e6: bytes::u64_at(data, 168),
            reserved: data.subrange(176, 256),
        }
    }

    /// Whether `data` starts with the mark of a state that was set up.
    pub open spec fn marked(data: Seq<u8>) -> bool {
        data.len() >= 8 && bytes::u64_at(data, 0) == MATCHER_MAGIC
    }

    /// What `read_from` gives for `data`.
    pub open spec fn stored(data: Seq<u8>) -> Result<CtxModel, MatcherError> {
        if data.len() < CTX_VAMM_LEN {
            Err(MatcherError::AccountDataTooSmall)
        } else if !Self::marked(data) {
            Err(MatcherError::UninitializedAccount)
        } else {
            Ok(Self::decoded(data))
        }
    }

    /// The rules on the parameters, apart from version and kind.
    pub open spec fn parameters_allowed(self) -> bool {
        &&& self.kind == 1 ==> self.liquidity_notional_e6 > 0
        &&& self.max_total_bps <= 9000
        &&& self.trading_fee_bps <= 1000
        &&& self.base_spread_bps + self.trading_fee_bps <= self.max_total_bps
        &&& self.lp_pda != bytes::zeros(32)
        &&& self.fee_to_insurance_bps <= 10_000
        &&& self.max_inventory_abs <= i128::MAX
        &&& self.max_fill_abs <= i128::MAX
        &&& self.skew_spread_mult_bps <= 10_000
    }

    /// What `validate` gives.
    pub open spec fn validation(self) -> Result<(), MatcherError> {
        if self.version != MATCHER_VERSION {
            Err(MatcherError::InvalidAccountData)
        } else if kind_of(self.kind) is Err {
            Err(MatcherError::InvalidInstructionData)
        } else if !self.parameters_allowed() {
            Err(MatcherError::InvalidAccountData)
        } else {
            Ok(())
        }
    }

    /// A state that every rule allows.
    pub open spec fn valid(self) -> bool {
        self.validation() is Ok
    }
}

/// The encoded state takes 256 bytes.
pub proof fn lemma_ctx_len(m: CtxModel)
    requires
        m.sized(),
    ensures
        m.encoded().len() == CTX_VAMM_LEN,
{
    broadcast use crate::bytes::lemma_le_bytes_len;
}

impl Default for MatcherCtx {
    /// All fields zero.
    fn default() -> (r: Self)
        ensures
            r@ == (CtxModel {
                magic: 0,
                version: 0,
                kind: 0,
                pad0: bytes::zeros(3),
                lp_pda: bytes::zeros(32),
                trading_fee_bps: 0,
                base_spread_bps: 0,
                max_total_bps: 0,
                impact_k_bps: 0,
                liquidity_notional_e6: 0,
                max_fill_abs: 0,
                inventory_base: 0,
                last_oracle_price_e6: 0,
                last_exec_price_e6: 0,
                max_inventory_abs: 0,
                insurance_accrued_e6: 0,
                fee_to_insurance_bps: 0,
                skew_spread_mult_bps: 0,
                new_pad: bytes::zeros(4),
                lp_account_id: 0,
                insurance_fee_remainder_e6: 0,
                reserved: bytes::zeros(80),
            }),
    {
        let r: MatcherCtx = MatcherCtx {
            magic: 0,
            version: 0,
            kind: 0,
            _pad0: [0u8; 3],
            lp_pda: [0u8; 32],
            trading_fee_bps: 0,
            base_spread_bps: 0,
            max_total_bps: 0,
            impact_k_bps: 0,
            liquidity_notional_e6: 0,
            max_fill_abs: 0,
            inventory_base: 0,
            last_oracle_price_e6: 0,
            last_exec_price_e6: 0,
            max_inventory_abs: 0,
            insurance_accrued_e6: 0,
            fee_to_insurance_bps: 0,
            skew_spread_mult_bps: 0,
            _new_pad: [0u8; 4],
            lp_account_id: 0,
            insurance_fee_remainder_e6: 0,
            _reserved: [0u8; 80],
        };
        proof {
            assert(r._pad0@ =~= bytes::zeros(3));
            assert(r.lp_pda@ =~= bytes::zeros(32));
            assert(r._new_pad@ =~= bytes::zeros(4));
            assert(r._reserved@ =~= bytes::zeros(80));
        }
        r
    }
}

impl MatcherCtx {
    /// Whether `data` starts with the mark of a state that was set up.
    pub fn is_initialized(data: &[u8]) -> (r: bool)
        ensures
            r == CtxModel::marked(data@),
    {
        if data.len() < 8 {
            return false;
        }
        bytes::read_u64(data, 0) == MATCHER_MAGIC
    }

    /// Reads the state from the first 256 bytes of `data`.
    pub fn read_from(data: &[u8]) -> (r: Result<Self, MatcherError>)
        ensures
            r is Ok <==> CtxModel::stored(data@) is Ok,
            r matches Ok(ctx) ==> ctx@ == CtxModel::decoded(data@),
            r matches Err(e) ==> CtxModel::stored(data@) == Err::<CtxModel, MatcherError>(e),
    {
        if data.len() < CTX_VAMM_LEN {
            return Err(MatcherError::AccountDataTooSmall);
        }
        let magic: u64 = bytes::read_u64(data, 0);
        if magic != MATCHER_MAGIC {
            return Err(MatcherError::UninitializedAccount);
        }
        let mut lp_pda: [u8; 32] = [0u8; 32];
        let mut i: usize = 0;
        while i < 32
            invariant
                i <= 32,
                data@.len() >= CTX_VAMM_LEN,
                forall|j: int| 0 <= j < i ==> lp_pda@[j] == data@[16 + j],
            decreases 32 - i,
        {
            lp_pda[i] = data[16 + i];
            i = i + 1;
        }
        let mut reserved: [u8; 80] = [0u8; 80];
        let mut k: usize = 0;
        while k < 80
            invariant
                k <= 80,
                data@.len() >= CTX_VAMM_LEN,
                forall|j: int| 0 <= j < k ==> reserved@[j] == data@[176 + j],
            decreases 80 - k,
        {
            reserved[k] = data[176 + k];
            k = k + 1;
        }
        let ctx: MatcherCtx = MatcherCtx {
            magic,
            version: bytes::read_u32(data, 8),
            kind: data[12],
            _pad0: [0u8; 3],
            lp_pda,
            trading_fee_bps: bytes::read_u32(data, 48),
            base_spread_bps: bytes::read_u32(data, 52),
            max_total_bps: bytes::read_u32(data, 56),
            impact_k_bps: bytes::read_u32(data, 60),
            liquidity_notional_e6: bytes::read_u128(data, 64),
            max_fill_abs: bytes::read_u128(data, 80),
            inventory_base: bytes::read_i128(data, 96),
            last_oracle_price_e6: bytes::read_u64(data, 112),
            last_exec_price_e6: bytes::read_u64(data, 120),
            max_inventory_abs: bytes::read_u128(data, 128),
            insurance_accrued_e6: bytes::read_u64(data, 144),
            fee_to_insurance_bps: bytes::read_u16(data, 152),
            skew_spread_mult_bps: bytes::read_u16(data, 154),
            _new_pad: [0u8; 4],
            lp_account_id: bytes::read_u64(data, 160),
            insurance_fee_remainder_e6: bytes::read_u64(data, 168),
            _reserved: reserved,
        };
        proof {
            assert(ctx._pad0@ =~= bytes::zeros(3));
            assert(ctx.lp_pda@ =~= data@.subrange(16, 48));
            assert(ctx._new_pad@ =~= bytes::zeros(4));
            assert(ctx._reserved@ =~= data@.subrange(176, 256));
        }
        Ok(ctx)
    }

    /// The state's bytes.
    pub(crate) fn to_bytes(&self) -> (r: Vec<u8>)
        ensures
            r@ == self@.encoded(),
            r@.len() == CTX_VAMM_LEN,
    {
        let mut out: Vec<u8> = Vec::new();
        bytes::push_le(&mut out, self.magic as u128, 8);
        bytes::push_le(&mut out, self.version as u128, 4);
        out.push(self.kind);
        bytes::push_bytes(&mut out, &self._pad0);
        bytes::push_bytes(&mut out, &self.lp_pda);
        bytes::push_le(&mut out, self.trading_fee_bps as u128, 4);
        bytes::push_le(&mut out, self.base_spread_bps as u128, 4);
        bytes::push_le(&mut out, self.max_total_bps as u128, 4);
        bytes::push_le(&mut out, self.impact_k_bps as u128, 4);
        bytes::push_le(&mut out, self.liquidity_notional_e6, 16);
        bytes::push_le(&mut out, self.max_fill_abs, 16);
        bytes::push_i128(&mut out, self.inventory_base);
        bytes::push_le(&mut out, self.last_oracle_price_e6 as u128, 8);
        bytes::push_le(&mut out, self.last_exec_price_e6 as u128, 8);
        bytes::push_le(&mut out, self.max_inventory_abs, 16);
        bytes::push_le(&mut out, self.insurance_accrued_e6 as u128, 8);
        bytes::push_le(&mut out, self.fee_to_insurance_bps as u128, 2);
        bytes::push_le(&mut out, self.skew_spread_mult_bps as u128, 2);
        bytes::push_bytes(&mut out, &self._new_pad);
        bytes::push_le(&mut out, self.lp_account_id as u128, 8);
        bytes::push_le(&mut out, self.insurance_fee_remainder_e6 as u128, 8);
        bytes::push_bytes(&mut out, &self._reserved);
        proof {
            assert(out@ =~= self@.encoded());
            lemma_ctx_len(self@);
        }
        out
    }

    /// Writes the state over the first 256 bytes of `data`.
    pub fn write_to(&self, data: &mut [u8]) -> (r: Result<(), MatcherError>)
        ensures
            old(data)@.len() < CTX_VAMM_LEN ==> r == Err::<(), MatcherError>(
                MatcherError::AccountDataTooSmall,
            ) && final(data)@ == old(data)@,
            old(data)@.len() >= CTX_VAMM_LEN ==> r is Ok && final(data)@ == bytes::overwritten(
                old(data)@,
                0,
                self@.encoded(),
            ),
    {
        if data.len() < CTX_VAMM_LEN {
            return Err(MatcherError::AccountDataTooSmall);
        }
        let out: Vec<u8> = self.to_bytes();
        bytes::overwrite(data, 0, out.as_slice());
        Ok(())
    }

    /// The kind that the state names.
    pub fn get_kind(&self) -> (r: Result<MatcherKind, MatcherError>)
        ensures
            r == kind_of(self.kind),
    {
        MatcherKind::try_from(self.kind)
    }

    /// The provider's address.
    pub fn get_lp_pda(&self) -> (r: Pubkey)
        ensures
            r == account::pubkey_of(self.lp_pda@),
    {
        account::pubkey_from_bytes(self.lp_pda)
    }

    /// Checks the version, the kind and every rule on the parameters.
    pub fn validate(&self) -> (r: Result<(), MatcherError>)
        ensures
            r == self@.validation(),
    {
        if self.version != MATCHER_VERSION {
            return Err(MatcherError::InvalidAccountData);
        }
        let kind: MatcherKind = self.get_kind()?;
        if kind == MatcherKind::Vamm && self.liquidity_notional_e6 == 0 {
            return Err(MatcherError::InvalidAccountData);
        }
        if self.max_total_bps > 9000 {
            return Err(MatcherError::InvalidAccountData);
        }
        if self.trading_fee_bps > 1000 {
            return Err(MatcherError::InvalidAccountData);
        }
        let total_fixed: u32 = self.base_spread_bps.saturating_add(self.trading_fee_bps);
        if total_fixed > self.max_total_bps {
            return Err(MatcherError::InvalidAccountData);
        }
        let no_key: [u8; 32] = [0u8; 32];
        proof {
            assert(no_key@ =~= bytes::zeros(32));
        }
        if account::same_bytes(&self.lp_pda, &no_key) {
            return Err(MatcherError::InvalidAccountData);
        }
        if self.fee_to_insurance_bps > 10_000 {
            return Err(MatcherError::InvalidAccountData);
        }
        if self.max_inventory_abs > i128::MAX as u128 {
            return Err(MatcherError::InvalidAccountData);
        }
        if self.max_fill_abs > i128::MAX as u128 {
            return Err(MatcherError::InvalidAccountData);
        }
        if self.skew_spread_mult_bps > 10_000 {
            return Err(MatcherError::InvalidAccountData);
        }
        Ok(())
    }
}

} // verus!
