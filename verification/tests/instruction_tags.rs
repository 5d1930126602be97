//! Tags, and the bytes around them.
use percolator_match::vamm::InitParams;
use percolator_match::{
    MATCHER_ABI_VERSION, MATCHER_BATCH_CALL_TAG, MATCHER_BATCH_HEADER_LEN, MATCHER_BATCH_LEG_LEN,
    MATCHER_BATCH_MAX_LEGS, MATCHER_CALL_TAG, MATCHER_INIT_VAMM_TAG,
};

#[test]
fn tag_matcher_call_is_0() {
    assert_eq!(MATCHER_CALL_TAG, 0u8, "MATCHER_CALL_TAG must be 0");
}

#[test]
fn tag_matcher_init_vamm_is_2() {
    assert_eq!(MATCHER_INIT_VAMM_TAG, 2u8, "MATCHER_INIT_VAMM_TAG must be 2");
}

#[test]
fn abi_version_is_3() {
    assert_eq!(MATCHER_ABI_VERSION, 3u32, "MATCHER_ABI_VERSION must be 3");
}

#[test]
fn parse_matcher_call_tag_byte() {
    let data = [MATCHER_CALL_TAG; 1];
    assert_eq!(data[0], 0);
}

#[test]
fn parse_init_vamm_tag_byte() {
    let data = [MATCHER_INIT_VAMM_TAG; 1];
    assert_eq!(data[0], 2);
}

#[test]
fn tag_batch_call_is_3() {
    assert_eq!(MATCHER_BATCH_CALL_TAG, 3u8, "MATCHER_BATCH_CALL_TAG must be 3");
}

#[test]
fn batch_layout_constants_locked() {
    assert_eq!(MATCHER_BATCH_HEADER_LEN, 18, "batch header must be 18 bytes");
    assert_eq!(MATCHER_BATCH_LEG_LEN, 26, "each batch leg must be 26 bytes");
    assert_eq!(MATCHER_BATCH_MAX_LEGS, 16, "max 16 legs per batch (16*64=1024 return-data cap)");
}

#[test]
fn tag_1_is_unassigned() {
    assert_ne!(MATCHER_CALL_TAG, 1u8);
    assert_ne!(MATCHER_INIT_VAMM_TAG, 1u8);
    assert_ne!(MATCHER_BATCH_CALL_TAG, 1u8);
}

#[test]
fn matcher_call_tag_byte_at_offset_0() {
    let mut data = [0u8; 67];
    data[0] = MATCHER_CALL_TAG;
    let req_id: u64 = 0xDEAD_BEEF;
    data[1..9].copy_from_slice(&req_id.to_le_bytes());

    assert_eq!(data[0], MATCHER_CALL_TAG);
    assert_eq!(u64::from_le_bytes(data[1..9].try_into().unwrap()), req_id);
}

#[test]
fn init_params_tag_byte_at_offset_0() {
    let params = InitParams {
        kind: 0,
        trading_fee_bps: 30,
        base_spread_bps: 50,
        max_total_bps: 500,
        impact_k_bps: 0,
        liquidity_notional_e6: 0,
        max_fill_abs: u128::MAX / 2,
        max_inventory_abs: u128::MAX / 2,
        fee_to_insurance_bps: 0,
        skew_spread_mult_bps: 0,
        lp_account_id: 1,
    };
    let encoded = params.encode();
    assert_eq!(encoded[0], MATCHER_INIT_VAMM_TAG, "tag byte must be at offset 0");
    assert_eq!(encoded[1], 0u8, "kind=0 (Passive) at offset 1");
}
