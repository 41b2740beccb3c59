//! The control-plane state: six parallel state slots, the streaming
//! envelope around them, and the dispatch step that applies one
//! decoded control message and says what the surrounding loops must
//! do (wake the pacing loop, retune the clock, feed the predictor).

use vstd::prelude::*;
use crate::osc_var::{OscAddress, OscArg, OscMessage, OscVar, OscValue, LoopRange,
    sp_var_step};

verus! {

/// One state slot: everything one live scene holds.
#[derive(Debug)]
pub struct State {
    pub video_num: OscVar<i32>,
    pub beat_multiplier: OscVar<i32>,
    pub pass_iframe: OscVar<bool>,
    pub playhead: OscVar<i64>,
    pub loop_range: OscVar<LoopRange>,
    pub auto_skip: OscVar<bool>,
    pub frame_repeat: OscVar<i64>,
    pub loop_to_beat: OscVar<bool>,
    pub fps: OscVar<i64>,
    pub auto_switch_n: OscVar<i32>,
    pub switch_history: Vec<usize>,
    pub byte_errors: OscVar<i64>,
}

/// The last-selections ring after one selection lands: newest first,
/// at most five kept.
pub open spec fn sp_history_push(h: Seq<usize>, v: usize) -> Seq<usize> {
    if h.len() >= 5 {
        seq![v] + h.drop_last()
    } else {
        seq![v] + h
    }
}

/// Whether an address names one of a slot's handled variables; the
/// playhead is output-only.
pub open spec fn sp_state_matched(addr: OscAddress) -> bool {
    ||| addr == OscAddress::VideoNum
    ||| addr == OscAddress::BeatMultiplier
    ||| addr == OscAddress::PassIframe
    ||| addr == OscAddress::LoopRangeVar
    ||| addr == OscAddress::AutoSkip
    ||| addr == OscAddress::FrameRepeat
    ||| addr == OscAddress::LoopToBeat
    ||| addr == OscAddress::Fps
    ||| addr == OscAddress::AutoSwitch
    ||| addr == OscAddress::ByteErrors
}

/// The selection a video-number value records in the history ring.
pub open spec fn sp_selection(v: i32) -> usize {
    if v < 0 { 0usize } else { v as usize }
}

/// How a slot changes when one message lands on it: the matching
/// variable takes the incoming value, every other field stays; a
/// decodable video selection is also recorded in the history ring.
pub open spec fn sp_state_rel(a: State, b: State, addr: OscAddress, args: Seq<OscArg>)
    -> bool
{
    &&& b.video_num == (if addr == OscAddress::VideoNum {
        sp_var_step(a.video_num, args)
    } else {
        a.video_num
    })
    &&& b.beat_multiplier == (if addr == OscAddress::BeatMultiplier {
        sp_var_step(a.beat_multiplier, args)
    } else {
        a.beat_multiplier
    })
    &&& b.pass_iframe == (if addr == OscAddress::PassIframe {
        sp_var_step(a.pass_iframe, args)
    } else {
        a.pass_iframe
    })
    &&& b.playhead == a.playhead
    &&& b.loop_range == (if addr == OscAddress::LoopRangeVar {
        sp_var_step(a.loop_range, args)
    } else {
        a.loop_range
    })
    &&& b.auto_skip == (if addr == OscAddress::AutoSkip {
        sp_var_step(a.auto_skip, args)
    } else {
        a.auto_skip
    })
    &&& b.frame_repeat == (if addr == OscAddress::FrameRepeat {
        sp_var_step(a.frame_repeat, args)
    } else {
        a.frame_repeat
    })
    &&& b.loop_to_beat == (if addr == OscAddress::LoopToBeat {
        sp_var_step(a.loop_to_beat, args)
    } else {
        a.loop_to_beat
    })
    &&& b.fps == (if addr == OscAddress::Fps {
        sp_var_step(a.fps, args)
    } else {
        a.fps
    })
    &&& b.auto_switch_n == (if addr == OscAddress::AutoSwitch {
        sp_var_step(a.auto_switch_n, args)
    } else {
        a.auto_switch_n
    })
    &&& b.byte_errors == (if addr == OscAddress::ByteErrors {
        sp_var_step(a.byte_errors, args)
    } else {
        a.byte_errors
    })
    &&& b.switch_history@ == (if addr == OscAddress::VideoNum
        && <i32 as OscValue>::sp_from_args(args) is Some {
        sp_history_push(a.switch_history@,
            sp_selection(sp_var_step(a.video_num, args).value))
    } else {
        a.switch_history@
    })
}

/// A slot with every variable flagged outgoing.
pub open spec fn sp_state_all_changed(s: State) -> State {
    State {
        video_num: OscVar { changed_outgoing: true, ..s.video_num },
        beat_multiplier: OscVar { changed_outgoing: true, ..s.beat_multiplier },
        pass_iframe: OscVar { changed_outgoing: true, ..s.pass_iframe },
        playhead: OscVar { changed_outgoing: true, ..s.playhead },
        loop_range: OscVar { changed_outgoing: true, ..s.loop_range },
        auto_skip: OscVar { changed_outgoing: true, ..s.auto_skip },
        frame_repeat: OscVar { changed_outgoing: true, ..s.frame_repeat },
        loop_to_beat: OscVar { changed_outgoing: true, ..s.loop_to_beat },
        fps: OscVar { changed_outgoing: true, ..s.fps },
        auto_switch_n: OscVar { changed_outgoing: true, ..s.auto_switch_n },
        byte_errors: OscVar { changed_outgoing: true, ..s.byte_errors },
        ..s
    }
}

/// A slot with every variable's outgoing flag cleared.
pub open spec fn sp_state_cleared(s: State) -> State {
    State {
        video_num: OscVar { changed_outgoing: false, ..s.video_num },
        beat_multiplier: OscVar { changed_outgoing: false, ..s.beat_multiplier },
        pass_iframe: OscVar { changed_outgoing: false, ..s.pass_iframe },
        playhead: OscVar { changed_outgoing: false, ..s.playhead },
        loop_range: OscVar { changed_outgoing: false, ..s.loop_range },
        auto_skip: OscVar { changed_outgoing: false, ..s.auto_skip },
        frame_repeat: OscVar { changed_outgoing: false, ..s.frame_repeat },
        loop_to_beat: OscVar { changed_outgoing: false, ..s.loop_to_beat },
        fps: OscVar { changed_outgoing: false, ..s.fps },
        auto_switch_n: OscVar { changed_outgoing: false, ..s.auto_switch_n },
        byte_errors: OscVar { changed_outgoing: false, ..s.byte_errors },
        ..s
    }
}

/// The address-and-arguments view of a message.
pub open spec fn sp_msg_view(m: OscMessage) -> (OscAddress, Seq<OscArg>) {
    (m.addr, m.args@)
}

/// The message one variable owes, as a view, when flagged.
pub open spec fn sp_var_out<T: OscValue>(v: OscVar<T>)
    -> Seq<(OscAddress, Seq<OscArg>)>
{
    if v.changed_outgoing {
        seq![(v.address, v.value.sp_args())]
    } else {
        Seq::empty()
    }
}

/// The messages a slot owes, in definition order, as views.
pub open spec fn sp_state_out(s: State) -> Seq<(OscAddress, Seq<OscArg>)> {
    sp_var_out(s.video_num) + sp_var_out(s.beat_multiplier) + sp_var_out(s.pass_iframe)
        + sp_var_out(s.playhead) + sp_var_out(s.loop_range) + sp_var_out(s.auto_skip)
        + sp_var_out(s.frame_repeat) + sp_var_out(s.loop_to_beat) + sp_var_out(s.fps)
        + sp_var_out(s.auto_switch_n) + sp_var_out(s.byte_errors)
}

/// Drain one variable's pending outgoing message into `out`.
fn drain_var<T: OscValue>(var: &mut OscVar<T>, out: &mut Vec<OscMessage>)
    ensures
        *final(var) == (OscVar { changed_outgoing: false, ..*old(var) }),
        final(out)@.map_values(|m: OscMessage| sp_msg_view(m))
            == old(out)@.map_values(|m: OscMessage| sp_msg_view(m))
                + sp_var_out(*old(var)),
{
    let ghost before = out@.map_values(|m: OscMessage| sp_msg_view(m));
    match var.take_outgoing_message() {
        None => {
            proof {
                assert(out@.map_values(|m: OscMessage| sp_msg_view(m))
                    =~= before + sp_var_out(*old(var)));
            }
        },
        Some(m) => {
            out.push(m);
            proof {
                assert(out@.map_values(|m2: OscMessage| sp_msg_view(m2))
                    =~= before + sp_var_out(*old(var)));
            }
        },
    }
}

impl State {
    /// Whether a slot holds the default scene: video zero, no loop,
    /// unit repeat, thirty frames per second, everything else off,
    /// with every variable flagged for a first broadcast.
    pub open spec fn sp_is_default(s: State) -> bool {
        &&& s.video_num == (OscVar { value: 0i32, changed_outgoing: true,
            changed_incoming: false, address: OscAddress::VideoNum })
        &&& s.beat_multiplier == (OscVar { value: 0i32, changed_outgoing: true,
            changed_incoming: false, address: OscAddress::BeatMultiplier })
        &&& s.pass_iframe == (OscVar { value: false, changed_outgoing: true,
            changed_incoming: false, address: OscAddress::PassIframe })
        &&& s.playhead == (OscVar { value: 0i64, changed_outgoing: true,
            changed_incoming: false, address: OscAddress::Playhead })
        &&& s.loop_range == (OscVar { value: LoopRange(None), changed_outgoing: true,
            changed_incoming: false, address: OscAddress::LoopRangeVar })
        &&& s.auto_skip == (OscVar { value: false, changed_outgoing: true,
            changed_incoming: false, address: OscAddress::AutoSkip })
        &&& s.frame_repeat == (OscVar { value: 1000i64, changed_outgoing: true,
            changed_incoming: false, address: OscAddress::FrameRepeat })
        &&& s.loop_to_beat == (OscVar { value: false, changed_outgoing: true,
            changed_incoming: false, address: OscAddress::LoopToBeat })
        &&& s.fps == (OscVar { value: 30000i64, changed_outgoing: true,
            changed_incoming: false, address: OscAddress::Fps })
        &&& s.auto_switch_n == (OscVar { value: 0i32, changed_outgoing: true,
            changed_incoming: false, address: OscAddress::AutoSwitch })
        &&& s.switch_history@ == Seq::<usize>::empty()
        &&& s.byte_errors == (OscVar { value: 0i64, changed_outgoing: true,
            changed_incoming: false, address: OscAddress::ByteErrors })
    }

    /// The canonical addresses and the bounded history ring.
    pub open spec fn wf(&self) -> bool {
        &&& self.video_num.address == OscAddress::VideoNum
        &&& self.beat_multiplier.address == OscAddress::BeatMultiplier
        &&& self.pass_iframe.address == OscAddress::PassIframe
        &&& self.playhead.address == OscAddress::Playhead
        &&& self.loop_range.address == OscAddress::LoopRangeVar
        &&& self.auto_skip.address == OscAddress::AutoSkip
        &&& self.frame_repeat.address == OscAddress::FrameRepeat
        &&& self.loop_to_beat.address == OscAddress::LoopToBeat
        &&& self.fps.address == OscAddress::Fps
        &&& self.auto_switch_n.address == OscAddress::AutoSwitch
        &&& self.byte_errors.address == OscAddress::ByteErrors
        &&& self.switch_history@.len() <= 5
    }

    /// Build the default slot.
    pub fn new_default() -> (r: State)
        ensures Self::sp_is_default(r), r.wf()
    {
        let vec0: Vec<usize> = Vec::new();
        let r = State {
            video_num: OscVar::new(OscAddress::VideoNum, 0),
            beat_multiplier: OscVar::new(OscAddress::BeatMultiplier, 0),
            pass_iframe: OscVar::new(OscAddress::PassIframe, false),
            playhead: OscVar::new(OscAddress::Playhead, 0),
            loop_range: OscVar::new(OscAddress::LoopRangeVar, LoopRange(None)),
            auto_skip: OscVar::new(OscAddress::AutoSkip, false),
            frame_repeat: OscVar::new(OscAddress::FrameRepeat, 1000),
            loop_to_beat: OscVar::new(OscAddress::LoopToBeat, false),
            fps: OscVar::new(OscAddress::Fps, 30000),
            auto_switch_n: OscVar::new(OscAddress::AutoSwitch, 0),
            switch_history: vec0,
            byte_errors: OscVar::new(OscAddress::ByteErrors, 0),
        };
        proof {
            assert(r.switch_history@ =~= Seq::<usize>::empty());
        }
        r
    }

    /// Let a message land on the first matching variable; a decodable
    /// video selection is also recorded in the history ring.
    pub fn handle_osc_message(&mut self, msg: &OscMessage) -> (r: bool)
        requires old(self).wf()
        ensures
            final(self).wf(),
            r == sp_state_matched(msg.addr),
            sp_state_rel(*old(self), *final(self), msg.addr, msg.args@),
            !sp_state_matched(msg.addr) ==> *final(self) == *old(self),
    {
        if self.video_num.handle_osc_message(msg) {
            match <i32 as OscValue>::try_from_args(&msg.args) {
                None => {},
                Some(_) => {
                    let v = self.video_num.value;
                    let sel: usize = if v < 0 { 0 } else { v as usize };
                    if self.switch_history.len() >= 5 {
                        self.switch_history.pop();
                    }
                    self.switch_history.insert(0, sel);
                    proof {
                        assert(self.switch_history@
                            =~= sp_history_push(old(self).switch_history@, sel));
                    }
                },
            }
            return true;
        }
        if self.beat_multiplier.handle_osc_message(msg) {
            return true;
        }
        if self.pass_iframe.handle_osc_message(msg) {
            return true;
        }
        if self.loop_range.handle_osc_message(msg) {
            return true;
        }
        if self.auto_skip.handle_osc_message(msg) {
            return true;
        }
        if self.frame_repeat.handle_osc_message(msg) {
            return true;
        }
        if self.loop_to_beat.handle_osc_message(msg) {
            return true;
        }
        if self.fps.handle_osc_message(msg) {
            return true;
        }
        if self.auto_switch_n.handle_osc_message(msg) {
            return true;
        }
        if self.byte_errors.handle_osc_message(msg) {
            return true;
        }
        false
    }

    /// A fresh copy of this slot.
    pub fn duplicate(&self) -> (r: State)
        ensures
            r.video_num == self.video_num,
            r.beat_multiplier == self.beat_multiplier,
            r.pass_iframe == self.pass_iframe,
            r.playhead == self.playhead,
            r.loop_range == self.loop_range,
            r.auto_skip == self.auto_skip,
            r.frame_repeat == self.frame_repeat,
            r.loop_to_beat == self.loop_to_beat,
            r.fps == self.fps,
            r.auto_switch_n == self.auto_switch_n,
            r.byte_errors == self.byte_errors,
            r.switch_history@ == self.switch_history@,
    {
        let mut h: Vec<usize> = Vec::new();
        let mut i: usize = 0;
        while i < self.switch_history.len()
            invariant i <= self.switch_history@.len(),
                h@ == self.switch_history@.subrange(0, i as int),
            decreases self.switch_history@.len() - i,
        {
            h.push(self.switch_history[i]);
            proof {
                assert(self.switch_history@.subrange(0, i as int)
                    .push(self.switch_history@[i as int])
                    =~= self.switch_history@.subrange(0, i + 1));
            }
            i = i + 1;
        }
        proof { assert(h@ =~= self.switch_history@); }
        State {
            video_num: self.video_num,
            beat_multiplier: self.beat_multiplier,
            pass_iframe: self.pass_iframe,
            playhead: self.playhead,
            loop_range: self.loop_range,
            auto_skip: self.auto_skip,
            frame_repeat: self.frame_repeat,
            loop_to_beat: self.loop_to_beat,
            fps: self.fps,
            auto_switch_n: self.auto_switch_n,
            switch_history: h,
            byte_errors: self.byte_errors,
        }
    }

    /// Flag every variable outgoing, so the whole slot is resent.
    pub fn set_changed(&mut self)
        ensures *final(self) == sp_state_all_changed(*old(self))
    {
        self.video_num.set_changed();
        self.beat_multiplier.set_changed();
        self.pass_iframe.set_changed();
        self.playhead.set_changed();
        self.loop_range.set_changed();
        self.auto_skip.set_changed();
        self.frame_repeat.set_changed();
        self.loop_to_beat.set_changed();
        self.fps.set_changed();
        self.auto_switch_n.set_changed();
        self.byte_errors.set_changed();
    }

    /// Drain every pending outgoing message, in definition order.
    #[verifier::rlimit(50)]
    pub fn collect_outgoing(&mut self, out: &mut Vec<OscMessage>)
        ensures
            *final(self) == sp_state_cleared(*old(self)),
            final(out)@.map_values(|m: OscMessage| sp_msg_view(m))
                == old(out)@.map_values(|m: OscMessage| sp_msg_view(m))
                    + sp_state_out(*old(self)),
    {
        let ghost before = out@.map_values(|m: OscMessage| sp_msg_view(m));
        let ghost mut chunk: Seq<(OscAddress, Seq<OscArg>)> = Seq::empty();
        drain_var(&mut self.video_num, out);
        proof { chunk = sp_var_out(old(self).video_num); }
        drain_var(&mut self.beat_multiplier, out);
        proof {
            crate::bitio::lemma_seq_assoc(before, chunk,
                sp_var_out(old(self).beat_multiplier));
            chunk = chunk + sp_var_out(old(self).beat_multiplier);
        }
        drain_var(&mut self.pass_iframe, out);
        proof {
            crate::bitio::lemma_seq_assoc(before, chunk, sp_var_out(old(self).pass_iframe));
            chunk = chunk + sp_var_out(old(self).pass_iframe);
        }
        drain_var(&mut self.playhead, out);
        proof {
            crate::bitio::lemma_seq_assoc(before, chunk, sp_var_out(old(self).playhead));
            chunk = chunk + sp_var_out(old(self).playhead);
        }
        drain_var(&mut self.loop_range, out);
        proof {
            crate::bitio::lemma_seq_assoc(before, chunk, sp_var_out(old(self).loop_range));
            chunk = chunk + sp_var_out(old(self).loop_range);
        }
        drain_var(&mut self.auto_skip, out);
        proof {
            crate::bitio::lemma_seq_assoc(before, chunk, sp_var_out(old(self).auto_skip));
            chunk = chunk + sp_var_out(old(self).auto_skip);
        }
        drain_var(&mut self.frame_repeat, out);
        proof {
            crate::bitio::lemma_seq_assoc(before, chunk,
                sp_var_out(old(self).frame_repeat));
            chunk = chunk + sp_var_out(old(self).frame_repeat);
        }
        drain_var(&mut self.loop_to_beat, out);
        proof {
            crate::bitio::lemma_seq_assoc(before, chunk,
                sp_var_out(old(self).loop_to_beat));
            chunk = chunk + sp_var_out(old(self).loop_to_beat);
        }
        drain_var(&mut self.fps, out);
        proof {
            crate::bitio::lemma_seq_assoc(before, chunk, sp_var_out(old(self).fps));
            chunk = chunk + sp_var_out(old(self).fps);
        }
        drain_var(&mut self.auto_switch_n, out);
        proof {
            crate::bitio::lemma_seq_assoc(before, chunk,
                sp_var_out(old(self).auto_switch_n));
            chunk = chunk + sp_var_out(old(self).auto_switch_n);
        }
        drain_var(&mut self.byte_errors, out);
        proof {
            crate::bitio::lemma_seq_assoc(before, chunk, sp_var_out(old(self).byte_errors));
            chunk = chunk + sp_var_out(old(self).byte_errors);
            assert(chunk == sp_state_out(*old(self)));
        }
    }
}

/// The transient short-loop request: a length, and the first frame
/// latched on its first use.
#[derive(Clone, Copy, Debug, PartialEq, Eq)]
pub struct ShortLoop {
    pub first_frame: Option<usize>,
    pub len: usize,
}

/// The envelope around the six slots: the active slot drives the
/// output, the edit slot receives edits, and the transient request
/// fields carry one-shot commands to the emit loop.
#[derive(Debug)]
pub struct StreamingParams {
    pub restart_loop: bool,
    pub skip_frames: Option<usize>,
    pub has_client: bool,
    pub short_loop: Option<ShortLoop>,
    pub use_external_beat: OscVar<bool>,
    pub beat_offset: OscVar<u64>,
    pub beat_divider: u32,
    pub state_slots: Vec<State>,
    pub active_slot: OscVar<usize>,
    pub edit_slot: OscVar<usize>,
    pub is_live: OscVar<bool>,
}

impl StreamingParams {
    pub open spec fn wf(&self) -> bool {
        &&& self.state_slots@.len() == 6
        &&& forall|i: int| 0 <= i < 6 ==> (#[trigger] self.state_slots@[i]).wf()
        &&& self.active_slot.value < 6
        &&& self.edit_slot.value < 6
        &&& self.use_external_beat.address == OscAddress::UseExternalBeat
        &&& self.beat_offset.address == OscAddress::BeatOffset
        &&& self.active_slot.address == OscAddress::ActiveSlot
        &&& self.edit_slot.address == OscAddress::EditSlot
        &&& self.is_live.address == OscAddress::IsLive
    }

    /// The slot that drives emission.
    pub open spec fn sp_active(&self) -> State {
        self.state_slots@[self.active_slot.value as int]
    }

    /// The slot that receives edits.
    pub open spec fn sp_edit(&self) -> State {
        self.state_slots@[self.edit_slot.value as int]
    }

    /// Build the default envelope: no requests, no client, slot zero
    /// both live and edited, six default slots.
    pub fn new_default() -> (r: StreamingParams)
        ensures
            r.wf(),
            !r.restart_loop,
            r.skip_frames is None,
            !r.has_client,
            r.short_loop is None,
            r.use_external_beat.value == false,
            r.beat_offset.value == 0,
            r.beat_divider == 1,
            r.active_slot.value == 0,
            r.edit_slot.value == 0,
            r.is_live.value == true,
            forall|i: int| 0 <= i < 6 ==>
                State::sp_is_default(#[trigger] r.state_slots@[i]),
    {
        let mut slots: Vec<State> = Vec::new();
        let mut i: usize = 0;
        while i < 6
            invariant
                i <= 6,
                slots@.len() == i,
                forall|j: int| 0 <= j < i ==>
                    State::sp_is_default(#[trigger] slots@[j]),
                forall|j: int| 0 <= j < i ==> (#[trigger] slots@[j]).wf(),
            decreases 6 - i,
        {
            slots.push(State::new_default());
            i = i + 1;
        }
        StreamingParams {
            restart_loop: false,
            skip_frames: None,
            has_client: false,
            short_loop: None,
            use_external_beat: OscVar::new(OscAddress::UseExternalBeat, false),
            beat_offset: OscVar::new(OscAddress::BeatOffset, 0),
            beat_divider: 1,
            state_slots: slots,
            active_slot: OscVar::new(OscAddress::ActiveSlot, 0),
            edit_slot: OscVar::new(OscAddress::EditSlot, 0),
            is_live: OscVar::new(OscAddress::IsLive, true),
        }
    }

    /// Make `slot` the active one, flag its whole state for resync,
    /// and refresh the liveness flag.
    pub fn set_active_slot(&mut self, slot: usize)
        requires old(self).wf(), slot < 6
        ensures
            final(self).wf(),
            final(self).active_slot == sp_var_set(old(self).active_slot, slot),
            final(self).active_slot.value == slot,
            final(self).state_slots@[slot as int]
                == sp_state_all_changed(old(self).state_slots@[slot as int]),
            forall|i: int| 0 <= i < 6 && i != slot ==>
                #[trigger] final(self).state_slots@[i] == old(self).state_slots@[i],
            final(self).is_live
                == sp_var_set(old(self).is_live, slot == old(self).edit_slot.value),
            final(self).edit_slot == old(self).edit_slot,
            final(self).restart_loop == old(self).restart_loop,
            final(self).skip_frames == old(self).skip_frames,
            final(self).has_client == old(self).has_client,
            final(self).short_loop == old(self).short_loop,
            final(self).use_external_beat == old(self).use_external_beat,
            final(self).beat_offset == old(self).beat_offset,
            final(self).beat_divider == old(self).beat_divider,
    {
        self.active_slot.set(slot);
        let mut s = self.state_slots.remove(slot);
        s.set_changed();
        self.state_slots.insert(slot, s);
        let live = self.active_slot.value == self.edit_slot.value;
        self.is_live.set(live);
        proof {
            assert forall|i: int| 0 <= i < 6 && i != slot implies
                #[trigger] self.state_slots@[i] == old(self).state_slots@[i]
            by {
                assert(old(self).state_slots@.remove(slot as int)
                    .insert(slot as int, sp_state_all_changed(
                        old(self).state_slots@[slot as int]))[i]
                    == old(self).state_slots@[i]);
            }
        }
    }

    /// Make `slot` the edited one, flag its whole state for resync,
    /// and refresh the liveness flag.
    pub fn set_edit_slot(&mut self, slot: usize)
        requires old(self).wf(), slot < 6
        ensures
            final(self).wf(),
            final(self).edit_slot == sp_var_set(old(self).edit_slot, slot),
            final(self).edit_slot.value == slot,
            final(self).state_slots@[slot as int]
                == sp_state_all_changed(old(self).state_slots@[slot as int]),
            forall|i: int| 0 <= i < 6 && i != slot ==>
                #[trigger] final(self).state_slots@[i] == old(self).state_slots@[i],
            final(self).is_live
                == sp_var_set(old(self).is_live, old(self).active_slot.value == slot),
            final(self).active_slot == old(self).active_slot,
            final(self).restart_loop == old(self).restart_loop,
            final(self).skip_frames == old(self).skip_frames,
            final(self).has_client == old(self).has_client,
            final(self).short_loop == old(self).short_loop,
            final(self).use_external_beat == old(self).use_external_beat,
            final(self).beat_offset == old(self).beat_offset,
            final(self).beat_divider == old(self).beat_divider,
    {
        self.edit_slot.set(slot);
        let mut s = self.state_slots.remove(slot);
        s.set_changed();
        self.state_slots.insert(slot, s);
        let live = self.active_slot.value == self.edit_slot.value;
        self.is_live.set(live);
        proof {
            assert forall|i: int| 0 <= i < 6 && i != slot implies
                #[trigger] self.state_slots@[i] == old(self).state_slots@[i]
            by {
                assert(old(self).state_slots@.remove(slot as int)
                    .insert(slot as int, sp_state_all_changed(
                        old(self).state_slots@[slot as int]))[i]
                    == old(self).state_slots@[i]);
            }
        }
    }

    /// Let a message land on the envelope: the envelope's own
    /// variables are tried first (slot selections outside the six
    /// slots are ignored), then the edit slot.  The result says
    /// whether anything matched.
    pub fn handle_osc_message(&mut self, msg: &OscMessage) -> (r: bool)
        requires old(self).wf()
        ensures
            final(self).wf(),
            r == (msg.addr == OscAddress::UseExternalBeat
                || msg.addr == OscAddress::BeatOffset
                || msg.addr == OscAddress::ActiveSlot
                || msg.addr == OscAddress::EditSlot
                || sp_state_matched(msg.addr)),
            final(self).use_external_beat == (if msg.addr == OscAddress::UseExternalBeat {
                sp_var_step(old(self).use_external_beat, msg.args@)
            } else {
                old(self).use_external_beat
            }),
            final(self).beat_offset == (if msg.addr == OscAddress::BeatOffset {
                sp_var_step(old(self).beat_offset, msg.args@)
            } else {
                old(self).beat_offset
            }),
            final(self).active_slot == (if msg.addr == OscAddress::ActiveSlot {
                sp_slot_var_step(old(self).active_slot, msg.args@)
            } else {
                old(self).active_slot
            }),
            final(self).edit_slot == (if msg.addr == OscAddress::EditSlot {
                sp_slot_var_step(old(self).edit_slot, msg.args@)
            } else {
                old(self).edit_slot
            }),
            final(self).restart_loop == old(self).restart_loop,
            final(self).skip_frames == old(self).skip_frames,
            final(self).has_client == old(self).has_client,
            final(self).short_loop == old(self).short_loop,
            final(self).beat_divider == old(self).beat_divider,
            final(self).is_live == old(self).is_live,
            final(self).state_slots@.len() == 6,
            (msg.addr == OscAddress::UseExternalBeat
                || msg.addr == OscAddress::BeatOffset
                || msg.addr == OscAddress::ActiveSlot
                || msg.addr == OscAddress::EditSlot) ==>
                final(self).state_slots@ == old(self).state_slots@,
            (msg.addr != OscAddress::UseExternalBeat
                && msg.addr != OscAddress::BeatOffset
                && msg.addr != OscAddress::ActiveSlot
                && msg.addr != OscAddress::EditSlot) ==> {
                &&& forall|i: int| 0 <= i < 6 && i != old(self).edit_slot.value ==>
                    #[trigger] final(self).state_slots@[i] == old(self).state_slots@[i]
                &&& sp_state_rel(old(self).sp_edit(),
                    final(self).state_slots@[old(self).edit_slot.value as int],
                    msg.addr, msg.args@)
                &&& !sp_state_matched(msg.addr) ==>
                    final(self).state_slots@ == old(self).state_slots@
            },
    {
        if self.use_external_beat.handle_osc_message(msg) {
            return true;
        }
        if self.beat_offset.handle_osc_message(msg) {
            return true;
        }
        if msg.addr == OscAddress::ActiveSlot {
            slot_var_step(&mut self.active_slot, msg);
            return true;
        }
        if msg.addr == OscAddress::EditSlot {
            slot_var_step(&mut self.edit_slot, msg);
            return true;
        }
        let idx = self.edit_slot.value;
        let mut s = self.state_slots.remove(idx);
        let r = s.handle_osc_message(msg);
        self.state_slots.insert(idx, s);
        proof {
            assert forall|i: int| 0 <= i < 6 && i != idx implies
                #[trigger] self.state_slots@[i] == old(self).state_slots@[i]
            by {
                assert(old(self).state_slots@.remove(idx as int)
                    .insert(idx as int, self.state_slots@[idx as int])[i]
                    == old(self).state_slots@[i]);
            }
            assert(self.state_slots@[idx as int].wf());
            if !sp_state_matched(msg.addr) {
                assert(self.state_slots@ =~= old(self).state_slots@);
            }
        }
        r
    }
}

/// A slot-selection variable after a message lands on it: only a
/// decodable index inside the six slots, different from the current
/// one, replaces it and flags the change.
pub open spec fn sp_slot_var_step(var: OscVar<usize>, args: Seq<OscArg>)
    -> OscVar<usize>
{
    match <usize as OscValue>::sp_from_args(args) {
        None => var,
        Some(v) => if v < 6 && v != var.value {
            OscVar { value: v, changed_incoming: true, ..var }
        } else {
            var
        },
    }
}

/// Apply a slot-selection message with range validation.
fn slot_var_step(var: &mut OscVar<usize>, msg: &OscMessage)
    ensures *final(var) == sp_slot_var_step(*old(var), msg.args@)
{
    match <usize as OscValue>::try_from_args(&msg.args) {
        None => {},
        Some(v) => {
            if v < 6 && v != var.value {
                var.value = v;
                var.changed_incoming = true;
            }
        },
    }
}

/// A variable after an equality-filtered local write.
pub open spec fn sp_var_set<T: OscValue>(var: OscVar<T>, v: T) -> OscVar<T> {
    if v == var.value {
        var
    } else {
        OscVar { value: v, changed_outgoing: true, ..var }
    }
}

/// A value clamped into the normalized thousandths range.
pub open spec fn sp_clamp_milli(v: i64) -> i64 {
    if v < 0 { 0 } else if v > 1000 { 1000 } else { v }
}

/// The bounds a loop range stands for; none means the whole video.
pub open spec fn sp_range_of(lr: LoopRange) -> (i64, i64) {
    match lr.0 {
        Some(p) => p,
        None => (0, 1000),
    }
}

/// The range left after cutting a loop to a fraction of its width.
pub open spec fn sp_cut_range(lr: LoopRange, frac: i64) -> LoopRange {
    let (a0, b0) = sp_range_of(lr);
    let a = sp_clamp_milli(a0);
    let b = sp_clamp_milli(b0);
    let f = sp_clamp_milli(frac);
    let width: i64 = if b >= a { (b - a) as i64 } else { 0i64 };
    LoopRange(Some((a, (a + width * f / 1000) as i64)))
}

/// What the surrounding loops must do after a message lands.
#[derive(Clone, Copy, Debug, PartialEq, Eq, Structural)]
pub struct DispatchActions {
    /// Whether the message was recognised at all.
    pub matched: bool,
    /// Wake the pacing loop at once.
    pub wake_pacing: bool,
    /// Feed one beat into the predictor.
    pub put_input_beat: bool,
    /// Echo the external beat to the client.
    pub echo_beat: bool,
    /// Latch the sender as the client.
    pub latch_client: bool,
}

impl StreamingParams {
    /// Let one decoded message act on the state: the envelope and the
    /// edit slot take matching variable writes; the other recognised
    /// words act as commands.  `beat_counter` counts external beats
    /// against `external_beat_divider`.
    #[verifier::rlimit(100)]
    pub fn dispatch_message(&mut self, msg: &OscMessage, external_beat_divider: u32,
        beat_counter: &mut u32) -> (r: DispatchActions)
        requires old(self).wf()
        ensures
            final(self).wf(),
            final(self).state_slots@.len() == 6,
            // variable writes: the envelope and edit slot, as one step
            (msg.addr == OscAddress::UseExternalBeat
                || msg.addr == OscAddress::BeatOffset
                || msg.addr == OscAddress::ActiveSlot
                || msg.addr == OscAddress::EditSlot
                || sp_state_matched(msg.addr)) ==> {
                &&& final(self).use_external_beat
                    == (if msg.addr == OscAddress::UseExternalBeat {
                        sp_var_step(old(self).use_external_beat, msg.args@)
                    } else { old(self).use_external_beat })
                &&& final(self).beat_offset == (if msg.addr == OscAddress::BeatOffset {
                    sp_var_step(old(self).beat_offset, msg.args@)
                } else { old(self).beat_offset })
                &&& final(self).active_slot == (if msg.addr == OscAddress::ActiveSlot {
                    sp_slot_var_step(old(self).active_slot, msg.args@)
                } else { old(self).active_slot })
                &&& final(self).edit_slot == (if msg.addr == OscAddress::EditSlot {
                    sp_slot_var_step(old(self).edit_slot, msg.args@)
                } else { old(self).edit_slot })
                &&& sp_state_matched(msg.addr) ==> {
                    &&& forall|i: int| 0 <= i < 6 && i != old(self).edit_slot.value ==>
                        #[trigger] final(self).state_slots@[i]
                            == old(self).state_slots@[i]
                    &&& sp_state_rel(old(self).sp_edit(),
                        final(self).state_slots@[old(self).edit_slot.value as int],
                        msg.addr, msg.args@)
                }
                &&& !sp_state_matched(msg.addr) ==>
                    final(self).state_slots@ == old(self).state_slots@
                &&& final(self).restart_loop == old(self).restart_loop
                &&& final(self).skip_frames == old(self).skip_frames
                &&& final(self).has_client == old(self).has_client
                &&& final(self).short_loop == old(self).short_loop
                &&& final(self).beat_divider == old(self).beat_divider
                &&& final(self).is_live == old(self).is_live
                &&& r == (DispatchActions {
                    matched: true,
                    wake_pacing: msg.addr == OscAddress::VideoNum,
                    put_input_beat: false,
                    echo_beat: false,
                    latch_client: false,
                })
                &&& *final(beat_counter) == *old(beat_counter)
            },
            // the sender becomes the client
            msg.addr == OscAddress::SetClientAddress ==> {
                &&& final(self).has_client
                &&& final(self).restart_loop == old(self).restart_loop
                &&& final(self).skip_frames == old(self).skip_frames
                &&& final(self).short_loop == old(self).short_loop
                &&& final(self).state_slots@ == old(self).state_slots@
                &&& sp_same_env_vars(*old(self), *final(self))
                &&& r == (DispatchActions { matched: true, wake_pacing: false,
                    put_input_beat: false, echo_beat: false, latch_client: true })
                &&& *final(beat_counter) == *old(beat_counter)
            },
            // bookkeeping below: unchanged state is stated slot by slot
            // record one bound of the active slot's loop range
            msg.addr == OscAddress::RecordLoop ==> {
                &&& match <bool as OscValue>::sp_from_args(msg.args@) {
                    None => {
                        &&& sp_params_unchanged(*old(self), *final(self))
                        &&& r == sp_unmatched()
                    },
                    Some(start) => {
                        let act = old(self).sp_active();
                        let bounds = sp_range_of(act.loop_range.value);
                        let nr = if start {
                            LoopRange(Some((act.playhead.value, bounds.1)))
                        } else {
                            LoopRange(Some((bounds.0, act.playhead.value)))
                        };
                        &&& forall|i: int| 0 <= i < 6 && i != old(self).active_slot.value
                            ==> #[trigger] final(self).state_slots@[i]
                                == old(self).state_slots@[i]
                        &&& final(self).state_slots@[old(self).active_slot.value as int]
                            == (State { loop_range: sp_var_set(act.loop_range, nr),
                                ..act })
                        &&& sp_same_env_vars(*old(self), *final(self))
                        &&& final(self).restart_loop == old(self).restart_loop
                        &&& final(self).skip_frames == old(self).skip_frames
                        &&& final(self).has_client == old(self).has_client
                        &&& final(self).short_loop == old(self).short_loop
                        &&& r == sp_matched_plain()
                    },
                }
                &&& *final(beat_counter) == *old(beat_counter)
            },
            // clear the edit slot's loop range
            msg.addr == OscAddress::ClearLoop ==> {
                let ed = old(self).sp_edit();
                &&& forall|i: int| 0 <= i < 6 && i != old(self).edit_slot.value ==>
                    #[trigger] final(self).state_slots@[i] == old(self).state_slots@[i]
                &&& final(self).state_slots@[old(self).edit_slot.value as int]
                    == (State { loop_range: sp_var_set(ed.loop_range, LoopRange(None)),
                        ..ed })
                &&& sp_same_env_vars(*old(self), *final(self))
                &&& final(self).restart_loop == old(self).restart_loop
                &&& final(self).skip_frames == old(self).skip_frames
                &&& final(self).has_client == old(self).has_client
                &&& final(self).short_loop == old(self).short_loop
                &&& r == sp_matched_plain()
                &&& *final(beat_counter) == *old(beat_counter)
            },
            // multiply the edit slot's loop width by a fraction
            msg.addr == OscAddress::CutLoop ==> {
                &&& match <i64 as OscValue>::sp_from_args(msg.args@) {
                    None => {
                        &&& sp_params_unchanged(*old(self), *final(self))
                        &&& r == sp_unmatched()
                    },
                    Some(frac) => {
                        let ed = old(self).sp_edit();
                        let nr = sp_cut_range(ed.loop_range.value, frac);
                        &&& forall|i: int| 0 <= i < 6 && i != old(self).edit_slot.value
                            ==> #[trigger] final(self).state_slots@[i]
                                == old(self).state_slots@[i]
                        &&& final(self).state_slots@[old(self).edit_slot.value as int]
                            == (State { loop_range: sp_var_set(ed.loop_range, nr), ..ed })
                        &&& sp_same_env_vars(*old(self), *final(self))
                        &&& final(self).restart_loop == old(self).restart_loop
                        &&& final(self).skip_frames == old(self).skip_frames
                        &&& final(self).has_client == old(self).has_client
                        &&& final(self).short_loop == old(self).short_loop
                        &&& r == sp_matched_plain()
                    },
                }
                &&& *final(beat_counter) == *old(beat_counter)
            },
            // request a frame skip
            msg.addr == OscAddress::SkipFrames ==> {
                &&& match <i32 as OscValue>::sp_from_args(msg.args@) {
                    None => {
                        &&& sp_params_unchanged(*old(self), *final(self))
                        &&& r == sp_unmatched()
                    },
                    Some(n) => {
                        &&& final(self).skip_frames
                            == Some((if n < 0 { 0i32 } else { n }) as usize)
                        &&& sp_same_env_vars(*old(self), *final(self))
                        &&& final(self).restart_loop == old(self).restart_loop
                        &&& final(self).has_client == old(self).has_client
                        &&& final(self).short_loop == old(self).short_loop
                        &&& final(self).state_slots@ == old(self).state_slots@
                        &&& r == (DispatchActions { matched: true, wake_pacing: true,
                            put_input_beat: false, echo_beat: false,
                            latch_client: false })
                    },
                }
                &&& *final(beat_counter) == *old(beat_counter)
            },
            // arm or clear the short loop
            msg.addr == OscAddress::ShortLoopVar ==> {
                &&& match <i32 as OscValue>::sp_from_args(msg.args@) {
                    None => {
                        &&& sp_params_unchanged(*old(self), *final(self))
                        &&& r == sp_unmatched()
                    },
                    Some(n) => {
                        &&& final(self).short_loop == (if n > 0 {
                            Some(ShortLoop { first_frame: None, len: n as usize })
                        } else {
                            None::<ShortLoop>
                        })
                        &&& sp_same_env_vars(*old(self), *final(self))
                        &&& final(self).restart_loop == old(self).restart_loop
                        &&& final(self).skip_frames == old(self).skip_frames
                        &&& final(self).has_client == old(self).has_client
                        &&& final(self).state_slots@ == old(self).state_slots@
                        &&& r == sp_matched_plain()
                    },
                }
                &&& *final(beat_counter) == *old(beat_counter)
            },
            // a hand-tapped beat, honoured only without an external one
            msg.addr == OscAddress::ManualBeat ==> {
                &&& sp_params_unchanged(*old(self), *final(self))
                &&& r == (DispatchActions { matched: true, wake_pacing: false,
                    put_input_beat: !old(self).use_external_beat.value,
                    echo_beat: false, latch_client: false })
                &&& *final(beat_counter) == *old(beat_counter)
            },
            // an external beat, divided down and echoed to the client
            msg.addr == OscAddress::TraktorBeat ==> {
                &&& sp_params_unchanged(*old(self), *final(self))
                &&& (if !old(self).use_external_beat.value {
                    &&& *final(beat_counter) == 0
                    &&& r == sp_matched_plain()
                } else if *old(beat_counter) + 1 >= external_beat_divider {
                    &&& *final(beat_counter) == 0
                    &&& r == (DispatchActions { matched: true, wake_pacing: false,
                        put_input_beat: true, echo_beat: old(self).has_client,
                        latch_client: false })
                } else {
                    &&& *final(beat_counter) == *old(beat_counter) + 1
                    &&& r == sp_matched_plain()
                })
            },
            // restore the edit slot to the defaults
            msg.addr == OscAddress::Reset ==> {
                &&& forall|i: int| 0 <= i < 6 && i != old(self).edit_slot.value ==>
                    #[trigger] final(self).state_slots@[i] == old(self).state_slots@[i]
                &&& State::sp_is_default(
                    final(self).state_slots@[old(self).edit_slot.value as int])
                &&& sp_same_env_vars(*old(self), *final(self))
                &&& final(self).restart_loop == old(self).restart_loop
                &&& final(self).skip_frames == old(self).skip_frames
                &&& final(self).has_client == old(self).has_client
                &&& final(self).short_loop == old(self).short_loop
                &&& r == sp_matched_plain()
                &&& *final(beat_counter) == *old(beat_counter)
            },
            // copy the active slot into a (rotated) edit slot
            msg.addr == OscAddress::CopyActive ==> {
                let ed0 = old(self).edit_slot.value;
                let target = if old(self).active_slot.value == ed0 {
                    ((ed0 + 1) % 6) as usize
                } else {
                    ed0
                };
                &&& final(self).edit_slot.value == target
                &&& forall|i: int| 0 <= i < 6 && i != target ==>
                    #[trigger] final(self).state_slots@[i] == old(self).state_slots@[i]
                &&& sp_copied_all_changed(old(self).sp_active(),
                    final(self).state_slots@[target as int])
                &&& final(self).active_slot == old(self).active_slot
                &&& final(self).use_external_beat == old(self).use_external_beat
                &&& final(self).beat_offset == old(self).beat_offset
                &&& final(self).beat_divider == old(self).beat_divider
                &&& final(self).restart_loop == old(self).restart_loop
                &&& final(self).skip_frames == old(self).skip_frames
                &&& final(self).has_client == old(self).has_client
                &&& final(self).short_loop == old(self).short_loop
                &&& r == sp_matched_plain()
                &&& *final(beat_counter) == *old(beat_counter)
            },
            // anything else is logged and ignored by the caller
            (msg.addr == OscAddress::Playhead || msg.addr == OscAddress::IsLive
                || msg.addr == OscAddress::BeatDelayed) ==> {
                &&& sp_params_unchanged(*old(self), *final(self))
                &&& r == sp_unmatched()
                &&& *final(beat_counter) == *old(beat_counter)
            },
    {
        if self.handle_osc_message(msg) {
            let wake = msg.addr == OscAddress::VideoNum;
            return DispatchActions { matched: true, wake_pacing: wake,
                put_input_beat: false, echo_beat: false, latch_client: false };
        }
        match msg.addr {
            OscAddress::SetClientAddress => {
                self.has_client = true;
                DispatchActions { matched: true, wake_pacing: false,
                    put_input_beat: false, echo_beat: false, latch_client: true }
            },
            OscAddress::RecordLoop => self.do_record_loop(msg),
            OscAddress::ClearLoop => self.do_clear_loop(),
            OscAddress::CutLoop => self.do_cut_loop(msg),
            OscAddress::SkipFrames => self.do_skip_frames(msg),
            OscAddress::ShortLoopVar => self.do_short_loop(msg),
            OscAddress::ManualBeat => {
                let feed = !self.use_external_beat.value;
                DispatchActions { matched: true, wake_pacing: false,
                    put_input_beat: feed, echo_beat: false, latch_client: false }
            },
            OscAddress::TraktorBeat => {
                if self.use_external_beat.value {
                    if *beat_counter == u32::MAX || *beat_counter + 1
                        >= external_beat_divider {
                        *beat_counter = 0;
                        DispatchActions { matched: true, wake_pacing: false,
                            put_input_beat: true, echo_beat: self.has_client,
                            latch_client: false }
                    } else {
                        *beat_counter = *beat_counter + 1;
                        DispatchActions { matched: true, wake_pacing: false,
                            put_input_beat: false, echo_beat: false,
                            latch_client: false }
                    }
                } else {
                    *beat_counter = 0;
                    DispatchActions { matched: true, wake_pacing: false,
                        put_input_beat: false, echo_beat: false, latch_client: false }
                }
            },
            OscAddress::Reset => self.do_reset(),
            OscAddress::CopyActive => self.do_copy_active(),
            _ => DispatchActions { matched: false, wake_pacing: false,
                put_input_beat: false, echo_beat: false, latch_client: false },
        }
    }

    /// Record one bound of the active slot's loop range: at the start
    /// of a recording the playhead becomes the lower bound, at its end
    /// the upper one; the other bound is kept.
    fn do_record_loop(&mut self, msg: &OscMessage) -> (r: DispatchActions)
        requires old(self).wf()
        ensures
            final(self).wf(),
            final(self).state_slots@.len() == 6,
            match <bool as OscValue>::sp_from_args(msg.args@) {
                None => {
                    &&& sp_params_unchanged(*old(self), *final(self))
                    &&& r == sp_unmatched()
                },
                Some(start) => {
                    let act = old(self).sp_active();
                    let bounds = sp_range_of(act.loop_range.value);
                    let nr = if start {
                        LoopRange(Some((act.playhead.value, bounds.1)))
                    } else {
                        LoopRange(Some((bounds.0, act.playhead.value)))
                    };
                    &&& forall|i: int| 0 <= i < 6 && i != old(self).active_slot.value
                        ==> #[trigger] final(self).state_slots@[i]
                            == old(self).state_slots@[i]
                    &&& final(self).state_slots@[old(self).active_slot.value as int]
                        == (State { loop_range: sp_var_set(act.loop_range, nr), ..act })
                    &&& sp_same_env_vars(*old(self), *final(self))
                    &&& final(self).restart_loop == old(self).restart_loop
                    &&& final(self).skip_frames == old(self).skip_frames
                    &&& final(self).has_client == old(self).has_client
                    &&& final(self).short_loop == old(self).short_loop
                    &&& r == sp_matched_plain()
                },
            },
    {
        match <bool as OscValue>::try_from_args(&msg.args) {
            None => DispatchActions { matched: false, wake_pacing: false,
                put_input_beat: false, echo_beat: false, latch_client: false },
            Some(start) => {
                let idx = self.active_slot.value;
                let mut slot = self.state_slots.remove(idx);
                let bounds = match slot.loop_range.value.0 {
                    Some(p) => p,
                    None => (0, 1000),
                };
                let nr = if start {
                    LoopRange(Some((slot.playhead.value, bounds.1)))
                } else {
                    LoopRange(Some((bounds.0, slot.playhead.value)))
                };
                slot.loop_range.set(nr);
                self.state_slots.insert(idx, slot);
                proof {
                    lemma_slots_put_back(old(self).state_slots@, self.state_slots@,
                        idx as int);
                }
                DispatchActions { matched: true, wake_pacing: false,
                    put_input_beat: false, echo_beat: false, latch_client: false }
            },
        }
    }

    /// Clear the edit slot's loop range.
    fn do_clear_loop(&mut self) -> (r: DispatchActions)
        requires old(self).wf()
        ensures
            final(self).wf(),
            final(self).state_slots@.len() == 6,
            ({
                let ed = old(self).sp_edit();
                &&& forall|i: int| 0 <= i < 6 && i != old(self).edit_slot.value ==>
                    #[trigger] final(self).state_slots@[i] == old(self).state_slots@[i]
                &&& final(self).state_slots@[old(self).edit_slot.value as int]
                    == (State { loop_range: sp_var_set(ed.loop_range, LoopRange(None)),
                        ..ed })
                &&& sp_same_env_vars(*old(self), *final(self))
                &&& final(self).restart_loop == old(self).restart_loop
                &&& final(self).skip_frames == old(self).skip_frames
                &&& final(self).has_client == old(self).has_client
                &&& final(self).short_loop == old(self).short_loop
                &&& r == sp_matched_plain()
            }),
    {
        let idx = self.edit_slot.value;
        let mut slot = self.state_slots.remove(idx);
        slot.loop_range.set(LoopRange(None));
        self.state_slots.insert(idx, slot);
        proof {
            lemma_slots_put_back(old(self).state_slots@, self.state_slots@, idx as int);
        }
        DispatchActions { matched: true, wake_pacing: false, put_input_beat: false,
            echo_beat: false, latch_client: false }
    }

    /// Multiply the edit slot's loop width by a fraction of a whole.
    fn do_cut_loop(&mut self, msg: &OscMessage) -> (r: DispatchActions)
        requires old(self).wf()
        ensures
            final(self).wf(),
            final(self).state_slots@.len() == 6,
            match <i64 as OscValue>::sp_from_args(msg.args@) {
                None => {
                    &&& sp_params_unchanged(*old(self), *final(self))
                    &&& r == sp_unmatched()
                },
                Some(frac) => {
                    let ed = old(self).sp_edit();
                    let nr = sp_cut_range(ed.loop_range.value, frac);
                    &&& forall|i: int| 0 <= i < 6 && i != old(self).edit_slot.value
                        ==> #[trigger] final(self).state_slots@[i]
                            == old(self).state_slots@[i]
                    &&& final(self).state_slots@[old(self).edit_slot.value as int]
                        == (State { loop_range: sp_var_set(ed.loop_range, nr), ..ed })
                    &&& sp_same_env_vars(*old(self), *final(self))
                    &&& final(self).restart_loop == old(self).restart_loop
                    &&& final(self).skip_frames == old(self).skip_frames
                    &&& final(self).has_client == old(self).has_client
                    &&& final(self).short_loop == old(self).short_loop
                    &&& r == sp_matched_plain()
                },
            },
    {
        match <i64 as OscValue>::try_from_args(&msg.args) {
            None => DispatchActions { matched: false, wake_pacing: false,
                put_input_beat: false, echo_beat: false, latch_client: false },
            Some(frac) => {
                let idx = self.edit_slot.value;
                let mut slot = self.state_slots.remove(idx);
                let bounds = match slot.loop_range.value.0 {
                    Some(p) => p,
                    None => (0, 1000),
                };
                let a = clamp_milli(bounds.0);
                let b = clamp_milli(bounds.1);
                let f = clamp_milli(frac);
                let width: i64 = if b >= a { b - a } else { 0 };
                proof {
                    assert(0 <= a <= 1000 && 0 <= b <= 1000 && 0 <= f <= 1000);
                    assert(0 <= width <= 1000);
                    assert(0 <= width * f <= 1000000) by (nonlinear_arith)
                        requires 0 <= width <= 1000, 0 <= f <= 1000,
                    ;
                }
                let nr = LoopRange(Some((a, a + width * f / 1000)));
                slot.loop_range.set(nr);
                self.state_slots.insert(idx, slot);
                proof {
                    lemma_slots_put_back(old(self).state_slots@, self.state_slots@,
                        idx as int);
                }
                DispatchActions { matched: true, wake_pacing: false,
                    put_input_beat: false, echo_beat: false, latch_client: false }
            },
        }
    }

    /// Request a frame skip and wake the pacing loop.
    fn do_skip_frames(&mut self, msg: &OscMessage) -> (r: DispatchActions)
        requires old(self).wf()
        ensures
            final(self).wf(),
            final(self).state_slots@.len() == 6,
            match <i32 as OscValue>::sp_from_args(msg.args@) {
                None => {
                    &&& sp_params_unchanged(*old(self), *final(self))
                    &&& r == sp_unmatched()
                },
                Some(n) => {
                    &&& final(self).skip_frames
                        == Some((if n < 0 { 0i32 } else { n }) as usize)
                    &&& sp_same_env_vars(*old(self), *final(self))
                    &&& final(self).restart_loop == old(self).restart_loop
                    &&& final(self).has_client == old(self).has_client
                    &&& final(self).short_loop == old(self).short_loop
                    &&& final(self).state_slots@ == old(self).state_slots@
                    &&& r == (DispatchActions { matched: true, wake_pacing: true,
                        put_input_beat: false, echo_beat: false, latch_client: false })
                },
            },
    {
        match <i32 as OscValue>::try_from_args(&msg.args) {
            None => DispatchActions { matched: false, wake_pacing: false,
                put_input_beat: false, echo_beat: false, latch_client: false },
            Some(n) => {
                let nn: i32 = if n < 0 { 0 } else { n };
                self.skip_frames = Some(nn as usize);
                DispatchActions { matched: true, wake_pacing: true,
                    put_input_beat: false, echo_beat: false, latch_client: false }
            },
        }
    }

    /// Arm the short loop with a length, or clear it with zero.
    fn do_short_loop(&mut self, msg: &OscMessage) -> (r: DispatchActions)
        requires old(self).wf()
        ensures
            final(self).wf(),
            final(self).state_slots@.len() == 6,
            match <i32 as OscValue>::sp_from_args(msg.args@) {
                None => {
                    &&& sp_params_unchanged(*old(self), *final(self))
                    &&& r == sp_unmatched()
                },
                Some(n) => {
                    &&& final(self).short_loop == (if n > 0 {
                        Some(ShortLoop { first_frame: None, len: n as usize })
                    } else {
                        None::<ShortLoop>
                    })
                    &&& sp_same_env_vars(*old(self), *final(self))
                    &&& final(self).restart_loop == old(self).restart_loop
                    &&& final(self).skip_frames == old(self).skip_frames
                    &&& final(self).has_client == old(self).has_client
                    &&& final(self).state_slots@ == old(self).state_slots@
                    &&& r == sp_matched_plain()
                },
            },
    {
        match <i32 as OscValue>::try_from_args(&msg.args) {
            None => DispatchActions { matched: false, wake_pacing: false,
                put_input_beat: false, echo_beat: false, latch_client: false },
            Some(n) => {
                if n > 0 {
                    self.short_loop = Some(ShortLoop { first_frame: None,
                        len: n as usize });
                } else {
                    self.short_loop = None;
                }
                DispatchActions { matched: true, wake_pacing: false,
                    put_input_beat: false, echo_beat: false, latch_client: false }
            },
        }
    }

    /// Restore the edit slot to the defaults.
    fn do_reset(&mut self) -> (r: DispatchActions)
        requires old(self).wf()
        ensures
            final(self).wf(),
            final(self).state_slots@.len() == 6,
            forall|i: int| 0 <= i < 6 && i != old(self).edit_slot.value ==>
                #[trigger] final(self).state_slots@[i] == old(self).state_slots@[i],
            State::sp_is_default(
                final(self).state_slots@[old(self).edit_slot.value as int]),
            sp_same_env_vars(*old(self), *final(self)),
            final(self).restart_loop == old(self).restart_loop,
            final(self).skip_frames == old(self).skip_frames,
            final(self).has_client == old(self).has_client,
            final(self).short_loop == old(self).short_loop,
            r == sp_matched_plain(),
    {
        let idx = self.edit_slot.value;
        let fresh = State::new_default();
        self.state_slots.remove(idx);
        self.state_slots.insert(idx, fresh);
        proof {
            assert forall|i: int| 0 <= i < 6 && i != idx implies
                #[trigger] self.state_slots@[i] == old(self).state_slots@[i]
            by {
                assert(old(self).state_slots@.remove(idx as int)
                    .insert(idx as int, self.state_slots@[idx as int])[i]
                    == old(self).state_slots@[i]);
            }
        }
        DispatchActions { matched: true, wake_pacing: false, put_input_beat: false,
            echo_beat: false, latch_client: false }
    }

    /// Copy the active slot into the edit slot, rotating the edit slot
    /// away first when the two coincide, and flag the copy for resync.
    fn do_copy_active(&mut self) -> (r: DispatchActions)
        requires old(self).wf()
        ensures
            final(self).wf(),
            final(self).state_slots@.len() == 6,
            ({
                let ed0 = old(self).edit_slot.value;
                let target = if old(self).active_slot.value == ed0 {
                    ((ed0 + 1) % 6) as usize
                } else {
                    ed0
                };
                &&& final(self).edit_slot.value == target
                &&& forall|i: int| 0 <= i < 6 && i != target ==>
                    #[trigger] final(self).state_slots@[i] == old(self).state_slots@[i]
                &&& sp_copied_all_changed(old(self).sp_active(),
                    final(self).state_slots@[target as int])
                &&& final(self).active_slot == old(self).active_slot
                &&& final(self).use_external_beat == old(self).use_external_beat
                &&& final(self).beat_offset == old(self).beat_offset
                &&& final(self).beat_divider == old(self).beat_divider
                &&& final(self).restart_loop == old(self).restart_loop
                &&& final(self).skip_frames == old(self).skip_frames
                &&& final(self).has_client == old(self).has_client
                &&& final(self).short_loop == old(self).short_loop
                &&& r == sp_matched_plain()
            }),
    {
        if self.active_slot.value == self.edit_slot.value {
            let rotated = (self.edit_slot.value + 1) % 6;
            self.edit_slot.set(rotated);
        }
        let aidx = self.active_slot.value;
        let copy_src = self.state_slots.remove(aidx);
        let mut copied = copy_src.duplicate();
        self.state_slots.insert(aidx, copy_src);
        proof {
            assert(self.state_slots@ =~= old(self).state_slots@);
        }
        copied.set_changed();
        let eidx = self.edit_slot.value;
        self.state_slots.remove(eidx);
        self.state_slots.insert(eidx, copied);
        proof {
            assert forall|i: int| 0 <= i < 6 && i != eidx implies
                #[trigger] self.state_slots@[i] == old(self).state_slots@[i]
            by {
                assert(old(self).state_slots@.remove(eidx as int)
                    .insert(eidx as int, self.state_slots@[eidx as int])[i]
                    == old(self).state_slots@[i]);
            }
        }
        DispatchActions { matched: true, wake_pacing: false, put_input_beat: false,
            echo_beat: false, latch_client: false }
    }
}

/// An unrecognised or undecodable message: nothing to do.
pub open spec fn sp_unmatched() -> DispatchActions {
    DispatchActions { matched: false, wake_pacing: false, put_input_beat: false,
        echo_beat: false, latch_client: false }
}

/// A recognised message with no side actions.
pub open spec fn sp_matched_plain() -> DispatchActions {
    DispatchActions { matched: true, wake_pacing: false, put_input_beat: false,
        echo_beat: false, latch_client: false }
}

/// `b` carries `src`'s scene with every variable flagged outgoing.
pub open spec fn sp_copied_all_changed(src: State, b: State) -> bool {
    &&& b.video_num == (OscVar { changed_outgoing: true, ..src.video_num })
    &&& b.beat_multiplier == (OscVar { changed_outgoing: true, ..src.beat_multiplier })
    &&& b.pass_iframe == (OscVar { changed_outgoing: true, ..src.pass_iframe })
    &&& b.playhead == (OscVar { changed_outgoing: true, ..src.playhead })
    &&& b.loop_range == (OscVar { changed_outgoing: true, ..src.loop_range })
    &&& b.auto_skip == (OscVar { changed_outgoing: true, ..src.auto_skip })
    &&& b.frame_repeat == (OscVar { changed_outgoing: true, ..src.frame_repeat })
    &&& b.loop_to_beat == (OscVar { changed_outgoing: true, ..src.loop_to_beat })
    &&& b.fps == (OscVar { changed_outgoing: true, ..src.fps })
    &&& b.auto_switch_n == (OscVar { changed_outgoing: true, ..src.auto_switch_n })
    &&& b.byte_errors == (OscVar { changed_outgoing: true, ..src.byte_errors })
    &&& b.switch_history@ == src.switch_history@
}

/// Nothing observable changed: every plain field equal, the slots
/// equal slot by slot.
pub open spec fn sp_params_unchanged(a: StreamingParams, b: StreamingParams) -> bool {
    &&& sp_same_env_vars(a, b)
    &&& b.restart_loop == a.restart_loop
    &&& b.skip_frames == a.skip_frames
    &&& b.has_client == a.has_client
    &&& b.short_loop == a.short_loop
    &&& b.state_slots@ == a.state_slots@
}

/// The envelope variables and divider are untouched.
pub open spec fn sp_same_env_vars(a: StreamingParams, b: StreamingParams) -> bool {
    &&& b.use_external_beat == a.use_external_beat
    &&& b.beat_offset == a.beat_offset
    &&& b.active_slot == a.active_slot
    &&& b.edit_slot == a.edit_slot
    &&& b.is_live == a.is_live
    &&& b.beat_divider == a.beat_divider
}

/// Clamp into the normalized thousandths range.
fn clamp_milli(v: i64) -> (r: i64)
    ensures r == sp_clamp_milli(v)
{
    if v < 0 {
        0
    } else if v > 1000 {
        1000
    } else {
        v
    }
}

/// Removing a slot and putting its replacement back leaves the other
/// slots alone.
proof fn lemma_slots_put_back(a: Seq<State>, b: Seq<State>, idx: int)
    requires
        0 <= idx < a.len(),
        b == a.remove(idx).insert(idx, b[idx]),
    ensures forall|i: int| 0 <= i < a.len() && i != idx ==> #[trigger] b[i] == a[i]
{
    assert forall|i: int| 0 <= i < a.len() && i != idx implies #[trigger] b[i] == a[i] by {
        assert(a.remove(idx).insert(idx, b[idx])[i] == a[i]);
    }
}

/// What the beat consumer must do after an effective beat.
#[derive(Clone, Copy, Debug, PartialEq, Eq, Structural)]
pub struct BeatActions {
    /// Tell the client a beat landed.
    pub send_beat_delayed: bool,
    /// Wake the pacing loop at once.
    pub wake_pacing: bool,
}

impl StreamingParams {
    /// Take a pending frame-rate request from the active slot,
    /// acknowledging it.
    pub fn take_fps_request(&mut self) -> (r: Option<i64>)
        requires old(self).wf()
        ensures
            final(self).wf(),
            r == (if old(self).sp_active().fps.changed_incoming {
                Some(old(self).sp_active().fps.value)
            } else {
                None::<i64>
            }),
            forall|i: int| 0 <= i < 6 && i != old(self).active_slot.value ==>
                #[trigger] final(self).state_slots@[i] == old(self).state_slots@[i],
            final(self).state_slots@[old(self).active_slot.value as int]
                == (State {
                    fps: OscVar { changed_incoming: false, ..old(self).sp_active().fps },
                    ..old(self).sp_active()
                }),
            sp_same_env_vars(*old(self), *final(self)),
            final(self).restart_loop == old(self).restart_loop,
            final(self).skip_frames == old(self).skip_frames,
            final(self).has_client == old(self).has_client,
            final(self).short_loop == old(self).short_loop,
    {
        let idx = self.active_slot.value;
        let mut slot = self.state_slots.remove(idx);
        let r = if slot.fps.changed_incoming {
            Some(slot.fps.value)
        } else {
            None
        };
        slot.fps.set_handled();
        self.state_slots.insert(idx, slot);
        proof {
            lemma_slots_put_back(old(self).state_slots@, self.state_slots@, idx as int);
        }
        r
    }

    /// Take a pending beat-multiplier request from the active slot,
    /// acknowledging it: the value is the period exponent for the
    /// predictor.
    pub fn take_beat_multiplier_request(&mut self) -> (r: Option<i32>)
        requires old(self).wf()
        ensures
            final(self).wf(),
            r == (if old(self).sp_active().beat_multiplier.changed_incoming {
                Some(old(self).sp_active().beat_multiplier.value)
            } else {
                None::<i32>
            }),
            forall|i: int| 0 <= i < 6 && i != old(self).active_slot.value ==>
                #[trigger] final(self).state_slots@[i] == old(self).state_slots@[i],
            final(self).state_slots@[old(self).active_slot.value as int]
                == (State {
                    beat_multiplier: OscVar { changed_incoming: false,
                        ..old(self).sp_active().beat_multiplier },
                    ..old(self).sp_active()
                }),
            sp_same_env_vars(*old(self), *final(self)),
            final(self).restart_loop == old(self).restart_loop,
            final(self).skip_frames == old(self).skip_frames,
            final(self).has_client == old(self).has_client,
            final(self).short_loop == old(self).short_loop,
    {
        let idx = self.active_slot.value;
        let mut slot = self.state_slots.remove(idx);
        let r = if slot.beat_multiplier.changed_incoming {
            Some(slot.beat_multiplier.value)
        } else {
            None
        };
        slot.beat_multiplier.set_handled();
        self.state_slots.insert(idx, slot);
        proof {
            lemma_slots_put_back(old(self).state_slots@, self.state_slots@, idx as int);
        }
        r
    }

    /// Acknowledge pending slot selections: when the active or edit
    /// selection changed, the chosen slot's whole state is flagged for
    /// resync and the liveness flag is refreshed.
    #[verifier::rlimit(100)]
    pub fn apply_slot_changes(&mut self)
        requires old(self).wf()
        ensures
            final(self).wf(),
            ({
                let a_changed = old(self).active_slot.changed_incoming;
                let e_changed = old(self).edit_slot.changed_incoming;
                let av = old(self).active_slot.value;
                let ev = old(self).edit_slot.value;
                &&& final(self).active_slot == (if a_changed {
                    OscVar { changed_incoming: false, ..old(self).active_slot }
                } else {
                    old(self).active_slot
                })
                &&& final(self).edit_slot == (if e_changed {
                    OscVar { changed_incoming: false, ..old(self).edit_slot }
                } else {
                    old(self).edit_slot
                })
                &&& final(self).is_live == (if a_changed || e_changed {
                    sp_var_set(old(self).is_live, av == ev)
                } else {
                    old(self).is_live
                })
                &&& forall|i: int| 0 <= i < 6
                    && !(a_changed && i == av) && !(e_changed && i == ev) ==>
                    #[trigger] final(self).state_slots@[i] == old(self).state_slots@[i]
                &&& a_changed ==> final(self).state_slots@[av as int]
                    == sp_state_all_changed(old(self).state_slots@[av as int])
                &&& e_changed && !(a_changed && av == ev) ==>
                    final(self).state_slots@[ev as int]
                        == sp_state_all_changed(old(self).state_slots@[ev as int])
                &&& final(self).use_external_beat == old(self).use_external_beat
                &&& final(self).beat_offset == old(self).beat_offset
                &&& final(self).beat_divider == old(self).beat_divider
                &&& final(self).restart_loop == old(self).restart_loop
                &&& final(self).skip_frames == old(self).skip_frames
                &&& final(self).has_client == old(self).has_client
                &&& final(self).short_loop == old(self).short_loop
            }),
    {
        let a_changed = self.active_slot.changed_incoming;
        let e_changed = self.edit_slot.changed_incoming;
        if a_changed {
            self.active_slot.set_handled();
            let v = self.active_slot.value;
            self.set_active_slot(v);
        }
        if e_changed {
            self.edit_slot.set_handled();
            let v = self.edit_slot.value;
            self.set_edit_slot(v);
        }
        proof {
            if a_changed && e_changed
                && old(self).active_slot.value == old(self).edit_slot.value {
                assert(sp_state_all_changed(sp_state_all_changed(
                    old(self).state_slots@[old(self).active_slot.value as int]))
                    == sp_state_all_changed(
                        old(self).state_slots@[old(self).active_slot.value as int]));
            }
        }
    }

    /// Apply the effects of one effective beat: count `beat_num`
    /// against the divider and, when it fires, skip ahead if armed,
    /// rotate through the remembered selections if armed, and restart
    /// the loop if armed.
    #[verifier::rlimit(100)]
    pub fn on_beat(&mut self, beat_num: &mut u32, auto_switch_num: &mut usize)
        -> (r: BeatActions)
        requires old(self).wf()
        ensures
            final(self).wf(),
            ({
                let fires = *old(beat_num) == u32::MAX
                    || *old(beat_num) + 1 >= old(self).beat_divider;
                &&& !fires ==> {
                    &&& *final(beat_num) == *old(beat_num) + 1
                    &&& sp_params_unchanged(*old(self), *final(self))
                    &&& *final(auto_switch_num) == *old(auto_switch_num)
                    &&& r == (BeatActions { send_beat_delayed: false,
                        wake_pacing: false })
                }
                &&& fires ==> {
                    let act = old(self).sp_active();
                    let hist = act.switch_history@;
                    let switching = act.auto_switch_n.value > 0;
                    let asn1 = if *old(auto_switch_num) + 1 >= hist.len()
                        || *old(auto_switch_num) + 1 > act.auto_switch_n.value {
                        0
                    } else {
                        *old(auto_switch_num) + 1
                    };
                    &&& *final(beat_num) == 0
                    &&& r.send_beat_delayed == old(self).has_client
                    &&& final(self).skip_frames == (if act.auto_skip.value {
                        Some(20usize)
                    } else {
                        old(self).skip_frames
                    })
                    &&& *final(auto_switch_num)
                        == (if switching { asn1 } else { *old(auto_switch_num) as int })
                    &&& (switching && hist.len() > 0) ==> {
                        &&& forall|i: int| 0 <= i < 6 && i != old(self).active_slot.value
                            ==> #[trigger] final(self).state_slots@[i]
                                == old(self).state_slots@[i]
                        &&& final(self).state_slots@[old(self).active_slot.value as int]
                            == (State {
                                video_num: sp_var_set(act.video_num,
                                    sp_hist_entry(hist, asn1 as int)),
                                ..act
                            })
                    }
                    &&& !(switching && hist.len() > 0) ==>
                        final(self).state_slots@ == old(self).state_slots@
                    &&& r.wake_pacing == (act.auto_skip.value
                        || (switching && hist.len() > 0))
                    &&& final(self).restart_loop == (if act.loop_to_beat.value {
                        true
                    } else {
                        old(self).restart_loop
                    })
                    &&& sp_same_env_vars(*old(self), *final(self))
                    &&& final(self).has_client == old(self).has_client
                    &&& final(self).short_loop == old(self).short_loop
                }
            }),
    {
        if !(*beat_num == u32::MAX) && *beat_num + 1 < self.beat_divider {
            *beat_num = *beat_num + 1;
            return BeatActions { send_beat_delayed: false, wake_pacing: false };
        }
        *beat_num = 0;
        let send_beat_delayed = self.has_client;
        let mut wake_pacing = false;
        let idx = self.active_slot.value;
        let mut slot = self.state_slots.remove(idx);
        if slot.auto_skip.value {
            self.skip_frames = Some(20);
            wake_pacing = true;
        }
        if slot.auto_switch_n.value > 0 {
            let cur = *auto_switch_num;
            let asn1: usize = if cur == usize::MAX {
                0
            } else {
                let next = cur + 1;
                if next >= slot.switch_history.len()
                    || next > max_usize_of_i32(slot.auto_switch_n.value) {
                    0
                } else {
                    next
                }
            };
            *auto_switch_num = asn1;
            if slot.switch_history.len() > 0 {
                let sel = slot.switch_history[asn1];
                let selv: i32 = #[verifier::truncate] (sel as i32);
                slot.video_num.set(selv);
                wake_pacing = true;
            }
        }
        if slot.loop_to_beat.value {
            self.restart_loop = true;
        }
        self.state_slots.insert(idx, slot);
        proof {
            lemma_slots_put_back(old(self).state_slots@, self.state_slots@, idx as int);
            if !(old(self).sp_active().auto_switch_n.value > 0
                && old(self).sp_active().switch_history@.len() > 0) {
                assert(self.state_slots@ =~= old(self).state_slots@);
            }
        }
        BeatActions { send_beat_delayed, wake_pacing }
    }

    /// Drain every pending outgoing message of the envelope and the
    /// edit slot, in definition order.
    #[verifier::rlimit(100)]
    pub fn collect_outgoing(&mut self, out: &mut Vec<OscMessage>)
        requires old(self).wf()
        ensures
            final(self).wf(),
            final(out)@.map_values(|m: OscMessage| sp_msg_view(m))
                == old(out)@.map_values(|m: OscMessage| sp_msg_view(m))
                    + sp_var_out(old(self).use_external_beat)
                    + sp_var_out(old(self).beat_offset)
                    + sp_var_out(old(self).active_slot)
                    + sp_var_out(old(self).edit_slot)
                    + sp_state_out(old(self).sp_edit())
                    + sp_var_out(old(self).is_live),
            final(self).use_external_beat
                == (OscVar { changed_outgoing: false, ..old(self).use_external_beat }),
            final(self).beat_offset
                == (OscVar { changed_outgoing: false, ..old(self).beat_offset }),
            final(self).active_slot
                == (OscVar { changed_outgoing: false, ..old(self).active_slot }),
            final(self).edit_slot
                == (OscVar { changed_outgoing: false, ..old(self).edit_slot }),
            final(self).is_live
                == (OscVar { changed_outgoing: false, ..old(self).is_live }),
            forall|i: int| 0 <= i < 6 && i != old(self).edit_slot.value ==>
                #[trigger] final(self).state_slots@[i] == old(self).state_slots@[i],
            final(self).state_slots@[old(self).edit_slot.value as int]
                == sp_state_cleared(old(self).sp_edit()),
            final(self).restart_loop == old(self).restart_loop,
            final(self).skip_frames == old(self).skip_frames,
            final(self).has_client == old(self).has_client,
            final(self).short_loop == old(self).short_loop,
            final(self).beat_divider == old(self).beat_divider,
    {
        let ghost before = out@.map_values(|m: OscMessage| sp_msg_view(m));
        let ghost mut chunk: Seq<(OscAddress, Seq<OscArg>)> = Seq::empty();
        drain_var(&mut self.use_external_beat, out);
        proof { chunk = sp_var_out(old(self).use_external_beat); }
        drain_var(&mut self.beat_offset, out);
        proof {
            crate::bitio::lemma_seq_assoc(before, chunk,
                sp_var_out(old(self).beat_offset));
            chunk = chunk + sp_var_out(old(self).beat_offset);
        }
        drain_var(&mut self.active_slot, out);
        proof {
            crate::bitio::lemma_seq_assoc(before, chunk,
                sp_var_out(old(self).active_slot));
            chunk = chunk + sp_var_out(old(self).active_slot);
        }
        drain_var(&mut self.edit_slot, out);
        proof {
            crate::bitio::lemma_seq_assoc(before, chunk, sp_var_out(old(self).edit_slot));
            chunk = chunk + sp_var_out(old(self).edit_slot);
        }
        let idx = self.edit_slot.value;
        let mut slot = self.state_slots.remove(idx);
        slot.collect_outgoing(out);
        self.state_slots.insert(idx, slot);
        proof {
            lemma_slots_put_back(old(self).state_slots@, self.state_slots@, idx as int);
            crate::bitio::lemma_seq_assoc(before, chunk,
                sp_state_out(old(self).sp_edit()));
            chunk = chunk + sp_state_out(old(self).sp_edit());
        }
        drain_var(&mut self.is_live, out);
        proof {
            crate::bitio::lemma_seq_assoc(before, chunk, sp_var_out(old(self).is_live));
            chunk = chunk + sp_var_out(old(self).is_live);
        }
    }
}

/// The remembered selection an index names, or zero out of range.
pub open spec fn sp_hist_entry(hist: Seq<usize>, i: int) -> i32 {
    if 0 <= i < hist.len() {
        hist[i] as i32
    } else {
        0
    }
}

/// The largest index a positive count admits.
fn max_usize_of_i32(v: i32) -> (r: usize)
    requires v >= 0
    ensures r == v as usize
{
    v as usize
}

} // verus!
