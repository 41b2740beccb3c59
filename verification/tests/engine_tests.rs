use h264_glitcher::engine::{parse_video, advance_frame, check_video_switch,
    playhead_milli, render_frame, palette_indices};
use h264_glitcher::state::ShortLoop;
use h264_glitcher::osc_var::LoopRange;
use h264_glitcher::parse_nal::SliceHeader;
use h264_glitcher::h264::NALUnitType;

#[test]
fn parse_video_keeps_parsable_units() {
    let mut data: Vec<u8> = Vec::new();
    data.extend_from_slice(&[0x00, 0x00, 0x00, 0x01]);
    data.extend_from_slice(&[0x67, 0xAA]); // SPS
    data.extend_from_slice(&[0x00, 0x00, 0x01]);
    data.extend_from_slice(&[0x80, 0x00]); // forbidden bit set: dropped
    data.extend_from_slice(&[0x00, 0x00, 0x01]);
    data.extend_from_slice(&[0x41, 0xBB, 0xCC]); // non-IDR slice
    data.extend_from_slice(&[0x00, 0x00, 0x01]);
    let v = parse_video(data);
    assert_eq!(v.frames.len(), 2);
    assert!(matches!(v.frames[0].nal_unit_type, NALUnitType::Sps));
    assert!(matches!(v.frames[1].nal_unit_type, NALUnitType::CodedSliceNonIdr));
    assert_eq!(v.frames[1].rbsp, vec![0xBB, 0xCC]);
}

#[test]
fn loop_range_cycle() {
    // a 100-frame video with a loop range of (0.5, 0.6): the frame
    // indices cycle 50, 51, ..., 59, 50, ...
    let lr = LoopRange(Some((500, 600)));
    let mut sl: Option<ShortLoop> = None;
    let mut cur: usize = 0;
    let mut seen: Vec<usize> = Vec::new();
    for _ in 0..21 {
        advance_frame(&mut cur, 100, &mut sl, lr);
        seen.push(cur);
    }
    let mut expect: Vec<usize> = Vec::new();
    expect.push(50);
    for k in 51..60 {
        expect.push(k);
    }
    expect.push(50);
    for k in 51..60 {
        expect.push(k);
    }
    expect.push(50);
    assert_eq!(seen, expect);
}

#[test]
fn whole_video_wraps() {
    let mut sl: Option<ShortLoop> = None;
    let mut cur: usize = 3;
    advance_frame(&mut cur, 5, &mut sl, LoopRange(None));
    assert_eq!(cur, 4);
    advance_frame(&mut cur, 5, &mut sl, LoopRange(None));
    assert_eq!(cur, 0);
}

#[test]
fn short_loop_latches_first_frame() {
    let mut sl: Option<ShortLoop> = Some(ShortLoop { first_frame: None, len: 3 });
    let mut cur: usize = 10;
    advance_frame(&mut cur, 100, &mut sl, LoopRange(None));
    assert_eq!(sl, Some(ShortLoop { first_frame: Some(10), len: 3 }));
    assert_eq!(cur, 11);
    advance_frame(&mut cur, 100, &mut sl, LoopRange(None));
    assert_eq!(cur, 12);
    advance_frame(&mut cur, 100, &mut sl, LoopRange(None));
    assert_eq!(cur, 10);
}

#[test]
fn video_switch_condition() {
    assert_eq!(check_video_switch(0, 1, 3), Some(1));
    assert_eq!(check_video_switch(1, 1, 3), None);
    assert_eq!(check_video_switch(0, 5, 3), None);
    assert_eq!(check_video_switch(0, -1, 3), None);
}

#[test]
fn playhead_fraction() {
    assert_eq!(playhead_milli(0, 100), 0);
    assert_eq!(playhead_milli(50, 100), 500);
    assert_eq!(playhead_milli(100, 100), 1000);
    assert_eq!(playhead_milli(1, 3), 333);
}

#[test]
fn render_passthrough_for_non_slice() {
    let unit = h264_glitcher::nal::NalUnit::from_bytes(&[0x67, 0xAA]).unwrap();
    let mut lfn: u32 = 5;
    let out = render_frame(&unit, true, 1000, &mut lfn).unwrap();
    assert_eq!(out, unit.to_bytes());
    assert_eq!(lfn, 5);
}

#[test]
fn render_rewrites_frame_num() {
    // slice rbsp: first_mb 0, slice_type 0, pps_id 0, frame_num 5, tail bit 1
    let rbsp: Vec<u8> = vec![0b11101011];
    let bytes: Vec<u8> = vec![0x41, rbsp[0]];
    let unit = h264_glitcher::nal::NalUnit::from_bytes(&bytes).unwrap();
    assert!(matches!(unit.nal_unit_type, NALUnitType::CodedSliceNonIdr));
    let parsed = SliceHeader::from_bytes(&unit.rbsp).unwrap();
    assert_eq!(parsed.frame_num, 5);
    let mut lfn: u32 = 0;
    let out = render_frame(&unit, true, 0, &mut lfn).unwrap();
    // frame_num becomes 0: header bits 1110000 then the kept tail bit 1
    assert_eq!(out, vec![0x41, 0b11100001]);
    assert_eq!(lfn, 1);
    // without rewriting, the slice survives byte-for-byte
    let mut lfn2: u32 = 0;
    let out2 = render_frame(&unit, false, 0, &mut lfn2).unwrap();
    assert_eq!(out2, bytes);
}

#[test]
fn render_corruption_keeps_leading_bytes() {
    // a slice with a body long enough to reach the corruption offset
    let mut rbsp: Vec<u8> = vec![0b11101011];
    for i in 0..80u8 {
        rbsp.push(0x10 | (i % 7));
    }
    let mut bytes: Vec<u8> = vec![0x41];
    bytes.extend_from_slice(&rbsp);
    let unit = h264_glitcher::nal::NalUnit::from_bytes(&bytes).unwrap();
    let mut lfn: u32 = 0;
    let out = render_frame(&unit, false, 1000, &mut lfn).unwrap();
    // the header byte and the first bytes of the slice survive
    assert_eq!(out[0], 0x41);
    assert_eq!(&out[1..40], &bytes[1..40]);
}

#[test]
fn palette_steps_on_directory_change() {
    let dirs: Vec<u64> = vec![7, 7, 9, 9, 9, 2];
    let idx = palette_indices(&dirs);
    assert_eq!(idx, vec![1, 1, 2, 2, 2, 3]);
}

#[test]
fn slice_header_round_trip() {
    let data: Vec<u8> = vec![0b11101011, 0xAB, 0xCD];
    let h = SliceHeader::from_bytes(&data).unwrap();
    assert_eq!(h.first_mb_in_slice, 0);
    assert_eq!(h.slice_type, 0);
    assert_eq!(h.pic_parameter_set_id, 0);
    assert_eq!(h.frame_num, 5);
    assert_eq!(h.to_bytes(), data);
}
