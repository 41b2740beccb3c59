use h264_glitcher::slice_header::SliceHeader;
use h264_glitcher::sps::{Sps, PicOrderCntType};
use h264_glitcher::pps::Pps;
use h264_glitcher::h264::NALUnitType;
use h264_glitcher::parse_h264::ParseError;

fn plain_sps() -> Sps {
    Sps {
        profile_idc: 66,
        constraint_set0_flag: false,
        constraint_set1_flag: false,
        constraint_set2_flag: false,
        constraint_set3_flag: false,
        constraint_set4_flag: false,
        constraint_set5_flag: false,
        level_idc: 30,
        seq_parameter_set_id: 0,
        chroma_format_idc: 1,
        separate_colour_plane_flag: false,
        bit_depth_luma_minus8: 0,
        bit_depth_chroma_minus8: 0,
        qpprime_y_zero_transform_bypass_flag: false,
        log2_max_frame_num_minus4: 0,
        pic_order_cnt_type: PicOrderCntType::Type2,
        max_num_ref_frames: 1,
        gaps_in_frame_num_value_allowed_flag: false,
        pic_width_in_mbs_minus1: 10,
        pic_height_in_map_units_minus1: 8,
        frame_mbs_only_flag: true,
        mb_adaptive_frame_field_flag: false,
        direct_8x8_inference_flag: true,
        frame_crop_offset: None,
        vui_parameters: None,
    }
}

fn plain_pps() -> Pps {
    Pps {
        pic_parameter_set_id: 0,
        seq_parameter_set_id: 0,
        entropy_coding_mode_flag: false,
        bottom_field_pic_order_in_frame_present_flag: false,
        num_ref_idx_l0_default_active_minus1: 0,
        num_ref_idx_l1_default_active_minus1: 0,
        weighted_pred_flag: false,
        weighted_bipred_idc: 0,
        pic_init_qp_minus26: 0,
        pic_init_qs_minus26: 0,
        chroma_qp_index_offset: 0,
        deblocking_filter_control_present_flag: false,
        constrained_intra_pred_flag: false,
        redundant_pic_cnt_present_flag: false,
        pps_more_data: None,
    }
}

#[test]
fn full_slice_header_parse() {
    // P slice: first_mb 0, slice_type 0, pps_id 0, frame_num 5,
    // no reference-count override, slice_qp_delta 0
    let data: Vec<u8> = vec![0b11101010, 0b10000000];
    let h = SliceHeader::from_bytes(&data, &plain_sps(), &plain_pps(),
        &NALUnitType::CodedSliceNonIdr, 2).unwrap();
    assert_eq!(h.first_mb_in_slice, 0);
    assert_eq!(h.slice_type, 0);
    assert_eq!(h.pic_parameter_set_id, 0);
    assert_eq!(h.frame_num, 5);
    assert_eq!(h.field_pic_flag, false);
    assert!(h.idr_pic_id.is_none());
    assert!(h.redundant_pic_cnt.is_none());
    assert!(h.pred_weight_table.is_none());
    // the retained tail starts right after frame_num and survives
    assert_eq!(h.to_bytes(), data);
}

#[test]
fn full_slice_header_frame_num_width_from_sps() {
    // with log2_max_frame_num_minus4 = 1, frame_num takes five bits
    let mut sps = plain_sps();
    sps.log2_max_frame_num_minus4 = 1;
    // bits: 1,1,1, 01011 (frame_num 11), 0, 1 -> 0b11101011 0b01000000
    let data: Vec<u8> = vec![0b11101011, 0b01000000];
    let h = SliceHeader::from_bytes(&data, &sps, &plain_pps(),
        &NALUnitType::CodedSliceNonIdr, 2).unwrap();
    assert_eq!(h.frame_num, 11);
}

#[test]
fn full_slice_header_rejects_wrong_pps() {
    let mut pps = plain_pps();
    pps.pic_parameter_set_id = 3;
    let data: Vec<u8> = vec![0b11101010, 0b10000000];
    let e = SliceHeader::from_bytes(&data, &plain_sps(), &pps,
        &NALUnitType::CodedSliceNonIdr, 2).unwrap_err();
    assert!(matches!(e, ParseError::InvalidData));
}

#[test]
fn full_slice_header_idr_reads_idr_pic_id() {
    // IDR slice: first_mb 0, slice_type 2 (I, '011'), pps_id 0,
    // frame_num 0, idr_pic_id 0, slice_qp_delta 0
    // bits: 1, 011, 1, 0000, 1, 1 -> 0b10111000 0b01100000
    let data: Vec<u8> = vec![0b10111000, 0b01100000];
    let h = SliceHeader::from_bytes(&data, &plain_sps(), &plain_pps(),
        &NALUnitType::CodedSliceIdr, 3).unwrap();
    assert_eq!(h.slice_type, 2);
    assert_eq!(h.idr_pic_id, Some(0));
}

#[test]
fn weighted_prediction_is_unsupported() {
    let mut pps = plain_pps();
    pps.weighted_pred_flag = true;
    // P slice with a reference override so the weight table is reached:
    // bits: 1,1,1, 0000, flag 1, ue(0)=1, then weight-table fields:
    // luma_log2 ue(0)=1, chroma_log2 ue(0)=1, entry flags 0
    let data: Vec<u8> = vec![0b11100001, 0b11100000];
    let e = SliceHeader::from_bytes(&data, &plain_sps(), &pps,
        &NALUnitType::CodedSliceNonIdr, 2).unwrap_err();
    assert!(matches!(e, ParseError::Unimplemented | ParseError::EndOfStream));
}
