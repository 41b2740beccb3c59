use h264_glitcher::osc_var::{OscAddress, OscArg, OscMessage, OscVar, OscValue, LoopRange};
use h264_glitcher::state::{State, StreamingParams};

#[test]
fn var_set_then_take_transmits_once() {
    let mut v: OscVar<i32> = OscVar::new(OscAddress::VideoNum, 0);
    // drain the initial broadcast flag first
    v.take_outgoing_message();
    v.set(3);
    let m = v.take_outgoing_message().unwrap();
    assert!(matches!(m.addr, OscAddress::VideoNum));
    assert_eq!(m.args, vec![OscArg::Int(3)]);
    assert!(v.take_outgoing_message().is_none());
}

#[test]
fn var_set_equal_transmits_nothing() {
    let mut v: OscVar<i32> = OscVar::new(OscAddress::VideoNum, 7);
    v.take_outgoing_message();
    v.set(7);
    assert!(v.take_outgoing_message().is_none());
}

#[test]
fn var_handle_flags_incoming_iff_matched_and_different() {
    let mut v: OscVar<i64> = OscVar::new(OscAddress::Fps, 30000);
    let wrong = OscMessage { addr: OscAddress::ByteErrors, args: vec![OscArg::Milli(1)] };
    assert!(!v.handle_osc_message(&wrong));
    assert!(!v.changed_incoming);
    assert_eq!(v.value, 30000);

    let same = OscMessage { addr: OscAddress::Fps, args: vec![OscArg::Milli(30000)] };
    assert!(v.handle_osc_message(&same));
    assert!(!v.changed_incoming);

    let diff = OscMessage { addr: OscAddress::Fps, args: vec![OscArg::Milli(60000)] };
    assert!(v.handle_osc_message(&diff));
    assert!(v.changed_incoming);
    assert_eq!(v.value, 60000);
    v.set_handled();
    assert!(!v.changed_incoming);
}

#[test]
fn state_dispatch_order_and_history() {
    let mut s = State::new_default();
    let m = OscMessage { addr: OscAddress::VideoNum, args: vec![OscArg::Int(4)] };
    assert!(s.handle_osc_message(&m));
    assert_eq!(s.video_num.value, 4);
    assert_eq!(s.switch_history, vec![4usize]);
    let m2 = OscMessage { addr: OscAddress::VideoNum, args: vec![OscArg::Int(2)] };
    assert!(s.handle_osc_message(&m2));
    assert_eq!(s.switch_history, vec![2usize, 4usize]);
    let unknown = OscMessage { addr: OscAddress::ClearLoop, args: vec![] };
    assert!(!s.handle_osc_message(&unknown));
    // a selection whose arguments do not decode is matched but leaves
    // the value and the history alone
    let undecodable = OscMessage { addr: OscAddress::VideoNum,
        args: vec![OscArg::Bool(true)] };
    assert!(s.handle_osc_message(&undecodable));
    assert_eq!(s.video_num.value, 2);
    assert_eq!(s.switch_history, vec![2usize, 4usize]);
}

#[test]
fn record_loop_sets_bounds_from_playhead() {
    let mut p = StreamingParams::new_default();
    let mut counter: u32 = 0;
    // set the active playhead to 0.3 by hand
    {
        let slot = &mut p.state_slots[0];
        slot.playhead.set(300);
    }
    let start = OscMessage { addr: OscAddress::RecordLoop, args: vec![OscArg::Bool(true)] };
    let r = p.dispatch_message(&start, 1, &mut counter);
    assert!(r.matched);
    assert_eq!(p.state_slots[0].loop_range.value, LoopRange(Some((300, 1000))));
    {
        let slot = &mut p.state_slots[0];
        slot.playhead.set(500);
    }
    let stop = OscMessage { addr: OscAddress::RecordLoop, args: vec![OscArg::Bool(false)] };
    let r = p.dispatch_message(&stop, 1, &mut counter);
    assert!(r.matched);
    assert_eq!(p.state_slots[0].loop_range.value, LoopRange(Some((300, 500))));
}

#[test]
fn cut_loop_halves_width() {
    let mut p = StreamingParams::new_default();
    let mut counter: u32 = 0;
    let set = OscMessage { addr: OscAddress::LoopRangeVar,
        args: vec![OscArg::Milli(200), OscArg::Milli(600)] };
    p.dispatch_message(&set, 1, &mut counter);
    let cut = OscMessage { addr: OscAddress::CutLoop, args: vec![OscArg::Milli(500)] };
    let r = p.dispatch_message(&cut, 1, &mut counter);
    assert!(r.matched);
    assert_eq!(p.state_slots[0].loop_range.value, LoopRange(Some((200, 400))));
}

#[test]
fn skip_frames_request_wakes() {
    let mut p = StreamingParams::new_default();
    let mut counter: u32 = 0;
    let m = OscMessage { addr: OscAddress::SkipFrames, args: vec![OscArg::Int(7)] };
    let r = p.dispatch_message(&m, 1, &mut counter);
    assert!(r.matched);
    assert!(r.wake_pacing);
    assert_eq!(p.skip_frames, Some(7));
}

#[test]
fn manual_beat_honoured_only_without_external() {
    let mut p = StreamingParams::new_default();
    let mut counter: u32 = 0;
    let m = OscMessage { addr: OscAddress::ManualBeat, args: vec![] };
    let r = p.dispatch_message(&m, 1, &mut counter);
    assert!(r.put_input_beat);
    let on = OscMessage { addr: OscAddress::UseExternalBeat, args: vec![OscArg::Bool(true)] };
    p.dispatch_message(&on, 1, &mut counter);
    let r = p.dispatch_message(&m, 1, &mut counter);
    assert!(!r.put_input_beat);
}

#[test]
fn external_beat_divided_down() {
    let mut p = StreamingParams::new_default();
    let mut counter: u32 = 0;
    let on = OscMessage { addr: OscAddress::UseExternalBeat, args: vec![OscArg::Bool(true)] };
    p.dispatch_message(&on, 1, &mut counter);
    let beat = OscMessage { addr: OscAddress::TraktorBeat, args: vec![] };
    // divider three: only every third beat feeds the predictor
    let r1 = p.dispatch_message(&beat, 3, &mut counter);
    assert!(!r1.put_input_beat);
    let r2 = p.dispatch_message(&beat, 3, &mut counter);
    assert!(!r2.put_input_beat);
    let r3 = p.dispatch_message(&beat, 3, &mut counter);
    assert!(r3.put_input_beat);
    assert_eq!(counter, 0);
}

#[test]
fn beat_effects_auto_skip() {
    let mut p = StreamingParams::new_default();
    let mut counter: u32 = 0;
    let arm = OscMessage { addr: OscAddress::AutoSkip, args: vec![OscArg::Bool(true)] };
    p.dispatch_message(&arm, 1, &mut counter);
    let mut beat_num: u32 = 0;
    let mut auto_switch_num: usize = 0;
    let acts = p.on_beat(&mut beat_num, &mut auto_switch_num);
    assert!(acts.wake_pacing);
    assert_eq!(p.skip_frames, Some(20));
}

#[test]
fn loop_to_beat_restarts() {
    let mut p = StreamingParams::new_default();
    let mut counter: u32 = 0;
    let arm = OscMessage { addr: OscAddress::LoopToBeat, args: vec![OscArg::Bool(true)] };
    p.dispatch_message(&arm, 1, &mut counter);
    let mut beat_num: u32 = 0;
    let mut auto_switch_num: usize = 0;
    p.on_beat(&mut beat_num, &mut auto_switch_num);
    assert!(p.restart_loop);
}

#[test]
fn copy_active_rotates_edit_slot() {
    let mut p = StreamingParams::new_default();
    let mut counter: u32 = 0;
    let set = OscMessage { addr: OscAddress::PassIframe, args: vec![OscArg::Bool(true)] };
    p.dispatch_message(&set, 1, &mut counter);
    let copy = OscMessage { addr: OscAddress::CopyActive, args: vec![] };
    let r = p.dispatch_message(&copy, 1, &mut counter);
    assert!(r.matched);
    assert_eq!(p.edit_slot.value, 1);
    assert_eq!(p.state_slots[1].pass_iframe.value, true);
}

#[test]
fn slot_selection_out_of_range_is_ignored() {
    let mut p = StreamingParams::new_default();
    let mut counter: u32 = 0;
    let bad = OscMessage { addr: OscAddress::ActiveSlot, args: vec![OscArg::Int(9)] };
    let r = p.dispatch_message(&bad, 1, &mut counter);
    assert!(r.matched);
    assert_eq!(p.active_slot.value, 0);
    let good = OscMessage { addr: OscAddress::ActiveSlot, args: vec![OscArg::Int(2)] };
    p.dispatch_message(&good, 1, &mut counter);
    assert_eq!(p.active_slot.value, 2);
    assert!(p.active_slot.changed_incoming);
    p.apply_slot_changes();
    assert!(!p.active_slot.changed_incoming);
    assert_eq!(p.is_live.value, false);
}

#[test]
fn collect_outgoing_drains_flags() {
    let mut p = StreamingParams::new_default();
    let mut out: Vec<OscMessage> = Vec::new();
    p.collect_outgoing(&mut out);
    // the fresh envelope owes every variable once
    assert!(out.len() >= 15);
    let mut out2: Vec<OscMessage> = Vec::new();
    p.collect_outgoing(&mut out2);
    assert_eq!(out2.len(), 0);
}

#[test]
fn loop_range_wire_default() {
    // none travels as the whole range
    let none = LoopRange(None);
    assert_eq!(none.to_args(), vec![OscArg::Milli(0), OscArg::Milli(1000)]);
    let some = LoopRange(Some((250, 750)));
    assert_eq!(some.to_args(), vec![OscArg::Milli(250), OscArg::Milli(750)]);
    let back = LoopRange::try_from_args(&vec![OscArg::Milli(250), OscArg::Milli(750)]);
    assert_eq!(back, Some(LoopRange(Some((250, 750)))));
}

#[test]
fn beat_offset_wire_is_milli() {
    let ms: u64 = 1500;
    assert_eq!(ms.to_args(), vec![OscArg::Milli(1500)]);
    assert_eq!(u64::try_from_args(&vec![OscArg::Milli(-2)]), None);
    assert_eq!(u64::try_from_args(&vec![OscArg::Milli(30)]), Some(30));
}
