use h264_glitcher::bitio::{BitReader, BitWriter};
use h264_glitcher::pps::PpsMoreData;
use h264_glitcher::sps::Sps;
use h264_glitcher::pps::Pps;
use h264_glitcher::parse_h264::ParseError;

#[test]
fn sps_test_sps_reencode() {
    let rbsp: Vec<u8> = vec![100, 0, 40, 172, 180, 3, 192, 17, 63, 44, 32, 0, 0, 0,
        32, 0, 0, 6, 1, 227, 6, 84];
    let mut reader = BitReader::new(rbsp.clone());
    let sps = Sps::read(&mut reader).unwrap();
    let mut writer = BitWriter::new();
    sps.write(&mut writer);
    assert_eq!(writer.take_bytes(), rbsp);
}

#[test]
fn sps_fields_of_sample() {
    let rbsp: Vec<u8> = vec![100, 0, 40, 172, 180, 3, 192, 17, 63, 44, 32, 0, 0, 0,
        32, 0, 0, 6, 1, 227, 6, 84];
    let mut reader = BitReader::new(rbsp);
    let sps = Sps::read(&mut reader).unwrap();
    assert_eq!(sps.profile_idc, 100);
    assert_eq!(sps.level_idc, 40);
    assert_eq!(sps.seq_parameter_set_id, 0);
    assert_eq!(sps.log2_max_frame_num_minus4, 0);
}

#[test]
fn sps_truncated_is_end_of_stream() {
    let mut reader = BitReader::new(vec![100, 0]);
    assert!(matches!(Sps::read(&mut reader), Err(ParseError::EndOfStream)));
}

#[test]
fn pps_reencode() {
    // pps_id 0, sps_id 0, CAVLC, no bottom-field order, no slice groups,
    // one reference each way, no weighting, zero QP offsets, no flags,
    // then trailing bits
    let mut writer = BitWriter::new();
    let pps = Pps {
        pic_parameter_set_id: 0,
        seq_parameter_set_id: 0,
        entropy_coding_mode_flag: false,
        bottom_field_pic_order_in_frame_present_flag: false,
        num_ref_idx_l0_default_active_minus1: 0,
        num_ref_idx_l1_default_active_minus1: 0,
        weighted_pred_flag: false,
        weighted_bipred_idc: 0,
        pic_init_qp_minus26: 0,
        pic_init_qs_minus26: 0,
        chroma_qp_index_offset: 0,
        deblocking_filter_control_present_flag: false,
        constrained_intra_pred_flag: false,
        redundant_pic_cnt_present_flag: false,
        pps_more_data: None,
    };
    pps.write(&mut writer);
    let bytes = writer.take_bytes();
    let mut reader = BitReader::new(bytes);
    let parsed = Pps::read(&mut reader).unwrap();
    assert_eq!(parsed.pic_parameter_set_id, 0);
    assert_eq!(parsed.seq_parameter_set_id, 0);
    assert_eq!(parsed.entropy_coding_mode_flag, false);
    assert_eq!(parsed.weighted_bipred_idc, 0);
    assert_eq!(parsed.pic_init_qp_minus26, 0);
    assert!(parsed.pps_more_data.is_none());
}

#[test]
fn pps_with_more_data_reencode() {
    let mut writer = BitWriter::new();
    let pps = Pps {
        pic_parameter_set_id: 1,
        seq_parameter_set_id: 0,
        entropy_coding_mode_flag: true,
        bottom_field_pic_order_in_frame_present_flag: false,
        num_ref_idx_l0_default_active_minus1: 2,
        num_ref_idx_l1_default_active_minus1: 1,
        weighted_pred_flag: true,
        weighted_bipred_idc: 2,
        pic_init_qp_minus26: -3,
        pic_init_qs_minus26: 4,
        chroma_qp_index_offset: -2,
        deblocking_filter_control_present_flag: true,
        constrained_intra_pred_flag: false,
        redundant_pic_cnt_present_flag: false,
        pps_more_data: Some(PpsMoreData {
            transform_8x8_mode_flag: true,
            second_chroma_qp_index_offset: -1,
        }),
    };
    pps.write(&mut writer);
    let bytes = writer.take_bytes();
    let mut reader = BitReader::new(bytes);
    let parsed = Pps::read(&mut reader).unwrap();
    assert_eq!(parsed.pic_parameter_set_id, 1);
    assert_eq!(parsed.entropy_coding_mode_flag, true);
    assert_eq!(parsed.num_ref_idx_l0_default_active_minus1, 2);
    assert_eq!(parsed.weighted_bipred_idc, 2);
    assert_eq!(parsed.pic_init_qp_minus26, -3);
    assert_eq!(parsed.pic_init_qs_minus26, 4);
    assert_eq!(parsed.chroma_qp_index_offset, -2);
    let more = parsed.pps_more_data.unwrap();
    assert_eq!(more.transform_8x8_mode_flag, true);
    assert_eq!(more.second_chroma_qp_index_offset, -1);
}
