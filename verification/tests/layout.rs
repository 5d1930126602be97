//! Sizes and field offsets.
use percolator_match::{
    MatcherCall, MatcherReturn,
    MATCHER_CALL_LEN, MATCHER_CONTEXT_LEN, MATCHER_RETURN_LEN,
    MATCHER_BATCH_HEADER_LEN, MATCHER_BATCH_LEG_LEN, MATCHER_BATCH_MAX_LEGS,
    CTX_RETURN_OFFSET, CTX_VAMM_OFFSET, CTX_VAMM_LEN,
};
use percolator_match::vamm::{InitParams, MatcherCtx, INIT_CTX_LEN, MATCHER_MAGIC, MATCHER_VERSION};

#[test]
fn ctx_return_offset_is_0() {
    assert_eq!(CTX_RETURN_OFFSET, 0);
}

#[test]
fn matcher_return_len_is_64() {
    assert_eq!(MATCHER_RETURN_LEN, 64);
}

#[test]
fn ctx_vamm_offset_is_64() {
    assert_eq!(CTX_VAMM_OFFSET, 64);
}

#[test]
fn ctx_vamm_len_is_256() {
    assert_eq!(CTX_VAMM_LEN, 256);
}

#[test]
fn matcher_context_len_is_320() {
    assert_eq!(MATCHER_CONTEXT_LEN, 320);
    assert_eq!(CTX_RETURN_OFFSET + MATCHER_RETURN_LEN + CTX_VAMM_LEN, 320);
}

#[test]
fn matcher_call_len_is_67() {
    assert_eq!(MATCHER_CALL_LEN, 67);
}

#[test]
fn init_ctx_len_is_78() {
    assert_eq!(INIT_CTX_LEN, 78);
}

#[test]
fn matcher_return_struct_size() {
    assert_eq!(core::mem::size_of::<MatcherReturn>(), MATCHER_RETURN_LEN);
}

#[test]
fn matcher_return_field_offsets_via_write_to() {
    let ret = MatcherReturn {
        abi_version: 0x0000_0003,
        flags: 0x0000_0001,
        exec_price_e6: 0x0102_0304_0506_0708,
        exec_size: 0x0102_0304_0506_0708_090A_0B0C_0D0E_0F10_i128,
        req_id: 0xAA_BB_CC_DD_EE_FF_00_11,
        lp_account_id: 0x11_22_33_44_55_66_77_88,
        oracle_price_e6: 0xCA_FE_BA_BE_DE_AD_BE_EF,
        asset_index: 0x0007,
    };
    let mut buf = [0u8; 64];
    ret.write_to(&mut buf).unwrap();

    assert_eq!(u32::from_le_bytes(buf[0..4].try_into().unwrap()), ret.abi_version);
    assert_eq!(u32::from_le_bytes(buf[4..8].try_into().unwrap()), ret.flags);
    assert_eq!(u64::from_le_bytes(buf[8..16].try_into().unwrap()), ret.exec_price_e6);
    assert_eq!(i128::from_le_bytes(buf[16..32].try_into().unwrap()), ret.exec_size);
    assert_eq!(u64::from_le_bytes(buf[32..40].try_into().unwrap()), ret.req_id);
    assert_eq!(u64::from_le_bytes(buf[40..48].try_into().unwrap()), ret.lp_account_id);
    assert_eq!(u64::from_le_bytes(buf[48..56].try_into().unwrap()), ret.oracle_price_e6);
    assert_eq!(u64::from_le_bytes(buf[56..64].try_into().unwrap()), ret.asset_index);
}

#[test]
fn matcher_call_field_offsets() {
    let mut data = [0u8; 67];
    data[0] = 0u8;
    let req_id: u64 = 0xDEAD_BEEF_CAFE_1234;
    let asset_index: u16 = 7;
    let lp_account_id: u64 = 0x1111_2222_3333_4444;
    let oracle_price_e6: u64 = 100_000_000;
    let req_size: i128 = -500_000;

    data[1..9].copy_from_slice(&req_id.to_le_bytes());
    data[9..11].copy_from_slice(&asset_index.to_le_bytes());
    data[11..19].copy_from_slice(&lp_account_id.to_le_bytes());
    data[19..27].copy_from_slice(&oracle_price_e6.to_le_bytes());
    data[27..43].copy_from_slice(&req_size.to_le_bytes());

    let call = MatcherCall::parse(&data).unwrap();
    assert_eq!(call.req_id, req_id);
    assert_eq!(call.asset_index, asset_index);
    assert_eq!(call.lp_account_id, lp_account_id);
    assert_eq!(call.oracle_price_e6, oracle_price_e6);
    assert_eq!(call.req_size, req_size);
}

#[test]
fn matcher_call_parse_rejects_nonzero_padding() {
    let mut data = [0u8; 67];
    data[43] = 0xFF;
    let result = MatcherCall::parse(&data);
    assert!(result.is_err(), "non-zero padding must be rejected");
}

#[test]
fn matcher_call_parse_rejects_wrong_tag() {
    let mut data = [0u8; 67];
    data[0] = 2;
    let result = MatcherCall::parse(&data);
    assert!(result.is_err(), "wrong tag must be rejected");
}

#[test]
fn matcher_ctx_size_is_256() {
    assert_eq!(core::mem::size_of::<MatcherCtx>(), CTX_VAMM_LEN);
    assert_eq!(core::mem::size_of::<MatcherCtx>(), 256);
}

#[test]
fn matcher_ctx_magic_constant() {
    assert_eq!(MATCHER_MAGIC, 0x5045_5243_4d41_5443u64);
}

#[test]
fn matcher_ctx_version_constant() {
    assert_eq!(MATCHER_VERSION, 4u32);
}

#[test]
fn matcher_ctx_field_offsets_via_serialization() {
    let ctx = MatcherCtx {
        magic: MATCHER_MAGIC,
        version: MATCHER_VERSION,
        kind: 1,
        _pad0: [0u8; 3],
        lp_pda: [0xABu8; 32],
        trading_fee_bps: 0x0A0B_0C0D,
        base_spread_bps: 0x1A1B_1C1D,
        max_total_bps: 0x2A2B_2C2D,
        impact_k_bps: 0x3A3B_3C3D,
        liquidity_notional_e6: 0xDEAD_BEEF_CAFE_1234_5678_9ABC_DEF0_0123u128,
        max_fill_abs: 0x1111_2222_3333_4444_5555_6666_7777_8888u128,
        inventory_base: -987654321i128,
        last_oracle_price_e6: 0xAAAA_BBBB_CCCC_DDDDu64,
        last_exec_price_e6: 0x1234_5678_9ABC_DEF0u64,
        max_inventory_abs: i128::MAX as u128,
        insurance_accrued_e6: 0x0102_0304_0506_0708u64,
        fee_to_insurance_bps: 0x0FFF,
        skew_spread_mult_bps: 0x0EEE,
        _new_pad: [0u8; 4],
        lp_account_id: 0xCAFE_BABE_1234_5678u64,
        insurance_fee_remainder_e6: 0x5566_7788_99AA_BBCCu64,
        _reserved: [0u8; 80],
    };

    let mut buf = [0u8; 256];
    ctx.write_to(&mut buf).unwrap();

    assert_eq!(u64::from_le_bytes(buf[0..8].try_into().unwrap()), MATCHER_MAGIC);
    assert_eq!(u32::from_le_bytes(buf[8..12].try_into().unwrap()), MATCHER_VERSION);
    assert_eq!(buf[12], 1u8);
    assert_eq!(&buf[13..16], &[0u8; 3]);
    assert_eq!(&buf[16..48], &[0xABu8; 32]);
    assert_eq!(u32::from_le_bytes(buf[48..52].try_into().unwrap()), ctx.trading_fee_bps);
    assert_eq!(u32::from_le_bytes(buf[52..56].try_into().unwrap()), ctx.base_spread_bps);
    assert_eq!(u32::from_le_bytes(buf[56..60].try_into().unwrap()), ctx.max_total_bps);
    assert_eq!(u32::from_le_bytes(buf[60..64].try_into().unwrap()), ctx.impact_k_bps);
    assert_eq!(u128::from_le_bytes(buf[64..80].try_into().unwrap()), ctx.liquidity_notional_e6);
    assert_eq!(u128::from_le_bytes(buf[80..96].try_into().unwrap()), ctx.max_fill_abs);
    assert_eq!(i128::from_le_bytes(buf[96..112].try_into().unwrap()), ctx.inventory_base);
    assert_eq!(u64::from_le_bytes(buf[112..120].try_into().unwrap()), ctx.last_oracle_price_e6);
    assert_eq!(u64::from_le_bytes(buf[120..128].try_into().unwrap()), ctx.last_exec_price_e6);
    assert_eq!(u128::from_le_bytes(buf[128..144].try_into().unwrap()), ctx.max_inventory_abs);
    assert_eq!(u64::from_le_bytes(buf[144..152].try_into().unwrap()), ctx.insurance_accrued_e6);
    assert_eq!(u16::from_le_bytes(buf[152..154].try_into().unwrap()), ctx.fee_to_insurance_bps);
    assert_eq!(u16::from_le_bytes(buf[154..156].try_into().unwrap()), ctx.skew_spread_mult_bps);
    assert_eq!(&buf[156..160], &[0u8; 4]);
    assert_eq!(u64::from_le_bytes(buf[160..168].try_into().unwrap()), ctx.lp_account_id);
    assert_eq!(
        u64::from_le_bytes(buf[168..176].try_into().unwrap()),
        ctx.insurance_fee_remainder_e6
    );
    assert_eq!(&buf[176..256], &[0u8; 80]);
}

#[test]
fn init_params_field_offsets() {
    let params = InitParams {
        kind: 1,
        trading_fee_bps: 0x0102_0304,
        base_spread_bps: 0x0506_0708,
        max_total_bps: 0x090A_0B0C,
        impact_k_bps: 0x0D0E_0F10,
        liquidity_notional_e6: 0xDEAD_BEEF_CAFE_0000_1111_2222_3333_4444u128,
        max_fill_abs: 0xAAAA_BBBB_CCCC_DDDD_EEEE_FFFF_0000_1111u128,
        max_inventory_abs: 0x1234_5678_9ABC_DEF0_0FED_CBA9_8765_4321u128,
        fee_to_insurance_bps: 0x1234,
        skew_spread_mult_bps: 0x5678,
        lp_account_id: 0xCAFE_BABE_DEAD_BEEFu64,
    };

    let buf = params.encode();
    assert_eq!(buf.len(), INIT_CTX_LEN);

    assert_eq!(buf[0], 2u8);
    assert_eq!(buf[1], params.kind);
    assert_eq!(u32::from_le_bytes(buf[2..6].try_into().unwrap()), params.trading_fee_bps);
    assert_eq!(u32::from_le_bytes(buf[6..10].try_into().unwrap()), params.base_spread_bps);
    assert_eq!(u32::from_le_bytes(buf[10..14].try_into().unwrap()), params.max_total_bps);
    assert_eq!(u32::from_le_bytes(buf[14..18].try_into().unwrap()), params.impact_k_bps);
    assert_eq!(u128::from_le_bytes(buf[18..34].try_into().unwrap()), params.liquidity_notional_e6);
    assert_eq!(u128::from_le_bytes(buf[34..50].try_into().unwrap()), params.max_fill_abs);
    assert_eq!(u128::from_le_bytes(buf[50..66].try_into().unwrap()), params.max_inventory_abs);
    assert_eq!(u16::from_le_bytes(buf[66..68].try_into().unwrap()), params.fee_to_insurance_bps);
    assert_eq!(u16::from_le_bytes(buf[68..70].try_into().unwrap()), params.skew_spread_mult_bps);
    assert_eq!(u64::from_le_bytes(buf[70..78].try_into().unwrap()), params.lp_account_id);
}

#[test]
fn batch_header_len_is_18() {
    assert_eq!(
        MATCHER_BATCH_HEADER_LEN,
        1 + 1 + 8 + 8,
        "batch header must be 18 bytes (tag+n+req_id+lp_account_id)"
    );
}

#[test]
fn batch_leg_len_is_26() {
    assert_eq!(
        MATCHER_BATCH_LEG_LEN,
        2 + 8 + 16,
        "each batch leg must be 26 bytes (asset_index+oracle_price_e6+req_size)"
    );
}

#[test]
fn batch_max_legs_fits_return_data_cap() {
    let max_return_data: usize = 1024;
    assert!(
        MATCHER_BATCH_MAX_LEGS * MATCHER_RETURN_LEN <= max_return_data,
        "BATCH_MAX_LEGS * RETURN_LEN must not exceed 1024 (Solana return-data cap)"
    );
    assert_eq!(MATCHER_BATCH_MAX_LEGS, 16, "max 16 legs");
    assert_eq!(MATCHER_BATCH_MAX_LEGS * MATCHER_RETURN_LEN, 1024);
}

#[test]
fn init_ctx_len_rust_side_includes_lp_account_id() {
    assert_eq!(INIT_CTX_LEN, 78, "Rust INIT_CTX_LEN must be 78 (includes lp_account_id)");
}
