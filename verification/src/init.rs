//! The instruction that sets up a context account.
use vstd::prelude::*;

use crate::abi::MATCHER_INIT_VAMM_TAG;
use crate::bytes;
use crate::error::MatcherError;

verus! {

/// Length of the short form, which ends with the inventory bound.
pub const INIT_CTX_LEN_V3: usize = 66;

/// Length of the full form, which adds insurance, skew and the provider's number.
pub const INIT_CTX_LEN: usize = 78;

/// The parameters that a provider chooses.
#[derive(Clone, Copy, Debug)]
pub struct InitParams {
    pub kind: u8,
    pub trading_fee_bps: u32,
    pub base_spread_bps: u32,
    pub max_total_bps: u32,
    pub impact_k_bps: u32,
    pub liquidity_notional_e6: u128,
    pub max_fill_abs: u128,
    pub max_inventory_abs: u128,
    pub fee_to_insurance_bps: u16,
    pub skew_spread_mult_bps: u16,
    /// Number that every call must name; 0 accepts any.
    pub lp_account_id: u64,
}

impl InitParams {
    /// The 78 bytes of the instruction, field after field.
    pub open spec fn encoded(self) -> Seq<u8> {
        seq![MATCHER_INIT_VAMM_TAG, self.kind]
            + bytes::le_bytes(self.trading_fee_bps as nat, 4)
            + bytes::le_bytes(self.base_spread_bps as nat, 4)
            + bytes::le_bytes(self.max_total_bps as nat, 4)
            + bytes::le_bytes(self.impact_k_bps as nat, 4)
            + bytes::le_bytes(self.liquidity_notional_e6 as nat, 16)
            + bytes::le_bytes(self.max_fill_abs as nat, 16)
            + bytes::le_bytes(self.max_inventory_abs as nat, 16)
            + bytes::le_bytes(self.fee_to_insurance_bps as nat, 2)
            + bytes::le_bytes(self.skew_spread_mult_bps as nat, 2)
            + bytes::le_bytes(self.lp_account_id as nat, 8)
    }

    /// The parameters that `data` holds, at the layout's offsets. What the short
    /// form leaves out is zero.
    pub open spec fn decoded(data: Seq<u8>) -> InitParams {
        let full = data.len() >= INIT_CTX_LEN;
        InitParams {
            kind: data[1],
            trading_fee_bps: bytes::u32_at(data, 2),
            base_spread_bps: bytes::u32_at(data, 6),
            max_total_bps: bytes::u32_at(data, 10),
            impact_k_bps: bytes::u32_at(data, 14),
            liquidity_notional_e6: bytes::u128_at(data, 18),
            max_fill_abs: bytes::u128_at(data, 34),
            max_inventory_abs: bytes::u128_at(data, 50),
            fee_to_insurance_bps: if full {
                bytes::u16_at(data, 66)
            } else {
                0
            },
            skew_spread_mult_bps: if full {
                bytes::u16_at(data, 68)
            } else {
                0
            },
            lp_account_id: if full {
                bytes::u64_at(data, 70)
            } else {
                0
            },
        }
    }

    /// What `parse` gives for `data`.
    pub open spec fn parsed(data: Seq<u8>) -> Result<InitParams, MatcherError> {
        if data.len() >= INIT_CTX_LEN_V3 && data[0] == MATCHER_INIT_VAMM_TAG {
            Ok(Self::decoded(data))
        } else {
            Err(MatcherError::InvalidInstructionData)
        }
    }

    /// Reads the parameters from instruction data, in the short or the full form.
    pub fn parse(data: &[u8]) -> (r: Result<Self, MatcherError>)
        ensures
            r == Self::parsed(data@),
    {
        if data.len() < INIT_CTX_LEN_V3 {
            return Err(MatcherError::InvalidInstructionData);
        }
        if data[0] != MATCHER_INIT_VAMM_TAG {
            return Err(MatcherError::InvalidInstructionData);
        }
        let extended: bool = data.len() >= INIT_CTX_LEN;
        Ok(
            InitParams {
                kind: data[1],
                trading_fee_bps: bytes::read_u32(data, 2),
                base_spread_bps: bytes::read_u32(data, 6),
                max_total_bps: bytes::read_u32(data, 10),
                impact_k_bps: bytes::read_u32(data, 14),
                liquidity_notional_e6: bytes::read_u128(data, 18),
                max_fill_abs: bytes::read_u128(data, 34),
                max_inventory_abs: bytes::read_u128(data, 50),
                fee_to_insurance_bps: if extended {
                    bytes::read_u16(data, 66)
                } else {
                    0
                },
                skew_spread_mult_bps: if extended {
                    bytes::read_u16(data, 68)
                } else {
                    0
                },
                lp_account_id: if extended {
                    bytes::read_u64(data, 70)
                } else {
                    0
                },
            },
        )
    }

    /// The instruction in its full form.
    pub fn encode(&self) -> (r: [u8; INIT_CTX_LEN])
        ensures
            r@ == self.encoded(),
    {
        let mut out: Vec<u8> = Vec::new();
        out.push(MATCHER_INIT_VAMM_TAG);
        out.push(self.kind);
        bytes::push_le(&mut out, self.trading_fee_bps as u128, 4);
        bytes::push_le(&mut out, self.base_spread_bps as u128, 4);
        bytes::push_le(&mut out, self.max_total_bps as u128, 4);
        bytes::push_le(&mut out, self.impact_k_bps as u128, 4);
        bytes::push_le(&mut out, self.liquidity_notional_e6, 16);
        bytes::push_le(&mut out, self.max_fill_abs, 16);
        bytes::push_le(&mut out, self.max_inventory_abs, 16);
        bytes::push_le(&mut out, self.fee_to_insurance_bps as u128, 2);
        bytes::push_le(&mut out, self.skew_spread_mult_bps as u128, 2);
        bytes::push_le(&mut out, self.lp_account_id as u128, 8);
        proof {
            assert(out@ =~= self.encoded());
            lemma_init_len(*self);
        }
        let mut data: [u8; INIT_CTX_LEN] = [0u8; 78];
        bytes::overwrite(&mut data, 0, out.as_slice());
        assert(data@ =~= self.encoded());
        data
    }
}

/// The full form takes 78 bytes.
pub proof fn lemma_init_len(p: InitParams)
    ensures
        p.encoded().len() == INIT_CTX_LEN,
{
    broadcast use crate::bytes::lemma_le_bytes_len;
}

} // verus!
