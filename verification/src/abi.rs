//! The bytes that callers exchange with the matcher: sizes, tags, the call and
//! the record that answers it.
use vstd::prelude::*;

use crate::bytes;
use crate::error::MatcherError;

verus! {

/// Offset of the answer in the context account.
pub const CTX_RETURN_OFFSET: usize = 0;

/// Length of the answer.
pub const MATCHER_RETURN_LEN: usize = 64;

/// Offset of the matcher's state in the context account.
pub const CTX_VAMM_OFFSET: usize = 64;

/// Length of the matcher's state.
pub const CTX_VAMM_LEN: usize = 256;

/// Least length of the context account.
pub const MATCHER_CONTEXT_LEN: usize = 320;

/// Tag of a single call.
pub const MATCHER_CALL_TAG: u8 = 0;

/// Tag of the instruction that sets up a context account.
pub const MATCHER_INIT_VAMM_TAG: u8 = 2;

/// Tag of a batched call.
pub const MATCHER_BATCH_CALL_TAG: u8 = 3;

/// Length of a batched call's header: tag, leg count, request id, provider id.
pub const MATCHER_BATCH_HEADER_LEN: usize = 18;

/// Length of one leg: asset index, oracle price, requested size.
pub const MATCHER_BATCH_LEG_LEN: usize = 26;

/// Most legs in a batch: their answers fill the 1024 bytes of return data.
pub const MATCHER_BATCH_MAX_LEGS: usize = 16;

/// Length of a single call.
pub const MATCHER_CALL_LEN: usize = 67;

/// The answer holds a decision.
pub const FLAG_VALID: u32 = 1;

/// The answer fills less than was asked for.
pub const FLAG_PARTIAL_OK: u32 = 2;

/// The answer refuses the request.
pub const FLAG_REJECTED: u32 = 4;

/// Version of the answer's layout.
pub const MATCHER_ABI_VERSION: u32 = 3;

/// Largest oracle price that is taken seriously: one billion per unit, scaled
/// by 1e6.
pub const ORACLE_PRICE_E6_MAX: u64 = 1_000_000_000_000_000;

/// Code of the failure "two legs name one asset at different prices".
pub const ERR_INCONSISTENT_LEG_ORACLE_PRICE: u32 = 1;

/// The answer to one call or one leg.
#[derive(Clone, Copy, Debug)]
pub struct MatcherReturn {
    pub abi_version: u32,
    pub flags: u32,
    pub exec_price_e6: u64,
    pub exec_size: i128,
    pub req_id: u64,
    pub lp_account_id: u64,
    pub oracle_price_e6: u64,
    /// The call's asset index, widened.
    pub asset_index: u64,
}

impl MatcherReturn {
    /// The 64 bytes of the record, field after field.
    pub open spec fn encoded(self) -> Seq<u8> {
        bytes::le_bytes(self.abi_version as nat, 4)
            + bytes::le_bytes(self.flags as nat, 4)
            + bytes::le_bytes(self.exec_price_e6 as nat, 8)
            + bytes::le_bytes(bytes::signed_pattern(self.exec_size as int), 16)
            + bytes::le_bytes(self.req_id as nat, 8)
            + bytes::le_bytes(self.lp_account_id as nat, 8)
            + bytes::le_bytes(self.oracle_price_e6 as nat, 8)
            + bytes::le_bytes(self.asset_index as nat, 8)
    }

    /// The record's bytes.
    pub(crate) fn to_bytes(&self) -> (r: Vec<u8>)
        ensures
            r@ == self.encoded(),
            r@.len() == MATCHER_RETURN_LEN,
    {
        let mut out: Vec<u8> = Vec::new();
        bytes::push_le(&mut out, self.abi_version as u128, 4);
        bytes::push_le(&mut out, self.flags as u128, 4);
        bytes::push_le(&mut out, self.exec_price_e6 as u128, 8);
        bytes::push_i128(&mut out, self.exec_size);
        bytes::push_le(&mut out, self.req_id as u128, 8);
        bytes::push_le(&mut out, self.lp_account_id as u128, 8);
        bytes::push_le(&mut out, self.oracle_price_e6 as u128, 8);
        bytes::push_le(&mut out, self.asset_index as u128, 8);
        proof {
            assert(out@ =~= self.encoded());
            lemma_return_len(*self);
        }
        out
    }

    /// Writes the record over the first 64 bytes of `data`.
    pub fn write_to(&self, data: &mut [u8]) -> (r: Result<(), MatcherError>)
        ensures
            old(data)@.len() < MATCHER_RETURN_LEN ==> r == Err::<(), MatcherError>(
                MatcherError::AccountDataTooSmall,
            ) && final(data)@ == old(data)@,
            old(data)@.len() >= MATCHER_RETURN_LEN ==> r is Ok && final(data)@ == bytes::overwritten(
                old(data)@,
                0,
                self.encoded(),
            ),
    {
        if data.len() < MATCHER_RETURN_LEN {
            return Err(MatcherError::AccountDataTooSmall);
        }
        let out: Vec<u8> = self.to_bytes();
        bytes::overwrite(data, 0, out.as_slice());
        Ok(())
    }

    /// A refusal.
    pub fn rejected(req_id: u64, lp_account_id: u64, asset_index: u16, oracle_price_e6: u64) -> (r:
        Self)
        ensures
            r == (MatcherReturn {
                abi_version: MATCHER_ABI_VERSION,
                flags: (FLAG_VALID + FLAG_REJECTED) as u32,
                exec_price_e6: 1,
                exec_size: 0,
                req_id,
                lp_account_id,
                oracle_price_e6,
                asset_index: asset_index as u64,
            }),
    {
        assert(1u32 | 4u32 == 5u32) by (bit_vector);
        MatcherReturn {
            abi_version: MATCHER_ABI_VERSION,
            flags: FLAG_VALID | FLAG_REJECTED,
            exec_price_e6: 1,
            exec_size: 0,
            req_id,
            lp_account_id,
            oracle_price_e6,
            asset_index: asset_index as u64,
        }
    }

    /// A fill.
    pub fn filled(
        exec_price: u64,
        exec_size: i128,
        req_id: u64,
        lp_account_id: u64,
        asset_index: u16,
        oracle_price_e6: u64,
    ) -> (r: Self)
        ensures
            r == (MatcherReturn {
                abi_version: MATCHER_ABI_VERSION,
                flags: FLAG_VALID,
                exec_price_e6: exec_price,
                exec_size,
                req_id,
                lp_account_id,
                oracle_price_e6,
                asset_index: asset_index as u64,
            }),
    {
        MatcherReturn {
            abi_version: MATCHER_ABI_VERSION,
            flags: FLAG_VALID,
            exec_price_e6: exec_price,
            exec_size,
            req_id,
            lp_account_id,
            oracle_price_e6,
            asset_index: asset_index as u64,
        }
    }

    /// A valid answer that fills nothing.
    pub fn zero_fill(
        req_id: u64,
        lp_account_id: u64,
        asset_index: u16,
        oracle_price_e6: u64,
    ) -> (r: Self)
        ensures
            r == (MatcherReturn {
                abi_version: MATCHER_ABI_VERSION,
                flags: (FLAG_VALID + FLAG_PARTIAL_OK) as u32,
                exec_price_e6: 1,
                exec_size: 0,
                req_id,
                lp_account_id,
                oracle_price_e6,
                asset_index: asset_index as u64,
            }),
    {
        assert(1u32 | 2u32 == 3u32) by (bit_vector);
        MatcherReturn {
            abi_version: MATCHER_ABI_VERSION,
            flags: FLAG_VALID | FLAG_PARTIAL_OK,
            exec_price_e6: 1,
            exec_size: 0,
            req_id,
            lp_account_id,
            oracle_price_e6,
            asset_index: asset_index as u64,
        }
    }
}

impl Default for MatcherReturn {
    /// All fields zero.
    fn default() -> (r: Self)
        ensures
            r == (MatcherReturn {
                abi_version: 0,
                flags: 0,
                exec_price_e6: 0,
                exec_size: 0,
                req_id: 0,
                lp_account_id: 0,
                oracle_price_e6: 0,
                asset_index: 0,
            }),
    {
        MatcherReturn {
            abi_version: 0,
            flags: 0,
            exec_price_e6: 0,
            exec_size: 0,
            req_id: 0,
            lp_account_id: 0,
            oracle_price_e6: 0,
            asset_index: 0,
        }
    }
}

/// A record takes 64 bytes.
pub proof fn lemma_return_len(r: MatcherReturn)
    ensures
        r.encoded().len() == MATCHER_RETURN_LEN,
{
    broadcast use crate::bytes::lemma_le_bytes_len;
}

/// One request for a fill.
#[derive(Clone, Copy, Debug)]
pub struct MatcherCall {
    pub req_id: u64,
    /// Slot of the asset in the caller's market group; echoed in the answer.
    pub asset_index: u16,
    pub lp_account_id: u64,
    pub oracle_price_e6: u64,
    /// Positive: the user buys. Negative: the user sells.
    pub req_size: i128,
}

impl MatcherCall {
    /// The call that `data` holds, at the layout's offsets.
    pub open spec fn decoded(data: Seq<u8>) -> MatcherCall {
        MatcherCall {
            req_id: bytes::u64_at(data, 1),
            asset_index: bytes::u16_at(data, 9),
            lp_account_id: bytes::u64_at(data, 11),
            oracle_price_e6: bytes::u64_at(data, 19),
            req_size: bytes::i128_at(data, 27),
        }
    }

    /// Whether `data` is a call: long enough, the right tag, zero padding.
    pub open spec fn well_formed(data: Seq<u8>) -> bool {
        &&& data.len() >= MATCHER_CALL_LEN
        &&& data[0] == MATCHER_CALL_TAG
        &&& forall|i: int| 43 <= i < 67 ==> data[i] == 0
    }

    /// What `parse` gives for `data`.
    pub open spec fn parsed(data: Seq<u8>) -> Result<MatcherCall, MatcherError> {
        if Self::well_formed(data) {
            Ok(Self::decoded(data))
        } else {
            Err(MatcherError::InvalidInstructionData)
        }
    }

    /// Reads a call from instruction data. Bytes beyond the layout are ignored.
    pub fn parse(data: &[u8]) -> (r: Result<Self, MatcherError>)
        ensures
            r == Self::parsed(data@),
    {
        if data.len() < MATCHER_CALL_LEN {
            return Err(MatcherError::InvalidInstructionData);
        }
        if data[0] != MATCHER_CALL_TAG {
            return Err(MatcherError::InvalidInstructionData);
        }
        let req_id: u64 = bytes::read_u64(data, 1);
        let asset_index: u16 = bytes::read_u16(data, 9);
        let lp_account_id: u64 = bytes::read_u64(data, 11);
        let oracle_price_e6: u64 = bytes::read_u64(data, 19);
        let req_size: i128 = bytes::read_i128(data, 27);

        let mut i: usize = 43;
        while i < 67
            invariant
                43 <= i <= 67,
                data@.len() >= MATCHER_CALL_LEN,
                forall|j: int| 43 <= j < i ==> data@[j] == 0,
            decreases 67 - i,
        {
            if data[i] != 0 {
                return Err(MatcherError::InvalidInstructionData);
            }
            i = i + 1;
        }
        Ok(MatcherCall { req_id, asset_index, lp_account_id, oracle_price_e6, req_size })
    }
}

} // verus!
