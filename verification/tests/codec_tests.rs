use csp_rs::codec::{
    cfp_dst, cfp_ident, cfp_make, cfp_remain, cfp_src, cfp_type, CFP_ID_CONN_MASK,
};
use csp_rs::csp_structs::{csp_id_from_word, CfpFrameType, CspError};

#[test]
fn cfp_make_and_extract_round_trip() {
    let id = cfp_make(5, 31, 1, 2, 0x155);
    assert_eq!(cfp_src(id), 5);
    assert_eq!(cfp_dst(id), 31);
    assert_eq!(cfp_type(id), 1);
    assert_eq!(cfp_remain(id), 2);
    assert_eq!(cfp_ident(id), 0x155);
}

#[test]
fn cfp_make_masks_out_of_range_subfields() {
    // out-of-range inputs are masked to their widths, never rejected
    let id = cfp_make(0xFF, 0xFF, 7, 0x1FF, 0xFFFF);
    assert_eq!(cfp_src(id), 0x1F);
    assert_eq!(cfp_dst(id), 0x1F);
    assert_eq!(cfp_type(id), 1);
    assert_eq!(cfp_remain(id), 0xFF);
    assert_eq!(cfp_ident(id), 0x3FF);
}

#[test]
fn conn_mask_selects_src_dst_and_ident_bits() {
    assert_eq!(CFP_ID_CONN_MASK, 0x1FF8_03FF);
    // two frames of one stream differing only in kind and remaining count
    // have the same connection tag
    let a = cfp_make(3, 9, 0, 7, 0x2A);
    let b = cfp_make(3, 9, 1, 6, 0x2A);
    assert_eq!(a & CFP_ID_CONN_MASK, b & CFP_ID_CONN_MASK);
    // a frame of another stream does not
    let c = cfp_make(3, 10, 0, 7, 0x2A);
    assert_ne!(a & CFP_ID_CONN_MASK, c & CFP_ID_CONN_MASK);
}

#[test]
fn classify_recognizes_begin_and_more_only() {
    assert_eq!(CfpFrameType::classify(0), Ok(CfpFrameType::CfpBegin));
    assert_eq!(CfpFrameType::classify(1), Ok(CfpFrameType::CfpMore));
    assert_eq!(CfpFrameType::classify(2), Err(CspError::Inval));
    assert_eq!(CfpFrameType::classify(u32::MAX), Err(CspError::Inval));
}

#[test]
fn frame_type_raw_values() {
    assert_eq!(CfpFrameType::CfpBegin.raw(), 0);
    assert_eq!(CfpFrameType::CfpMore.raw(), 1);
}

#[test]
fn error_codes_match_the_wire_interface() {
    assert_eq!(CspError::NoError.code(), 0);
    assert_eq!(CspError::Nomem.code(), -1);
    assert_eq!(CspError::Inval.code(), -2);
    assert_eq!(CspError::Timedout.code(), -3);
    assert_eq!(CspError::Nosys.code(), -38);
    assert_eq!(CspError::Hmac.code(), -100);
    assert_eq!(CspError::Crc32.code(), -102);
    assert_eq!(CspError::Sfp.code(), -103);
}

#[test]
fn csp_id_word_decodes_all_fields() {
    let h: u32 = (2u32 << 30) | (3u32 << 25) | (31u32 << 20) | (10u32 << 14) | (20u32 << 8) | 0x5A;
    let id = csp_id_from_word(h);
    assert_eq!(id.pri, 2);
    assert_eq!(id.src, 3);
    assert_eq!(id.dst, 31);
    assert_eq!(id.dport, 10);
    assert_eq!(id.sport, 20);
    assert_eq!(id.flags, 0x5A);
}
