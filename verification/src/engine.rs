//! The streaming engine's per-tick decisions: choosing and advancing
//! the frame window, rendering one NAL with `frame_num` rewriting and
//! deliberate byte corruption, parsing source files into frame lists,
//! and the label palette.

use vstd::prelude::*;
use crate::h264::NALUnitType;
use crate::nal::{NalUnit, sp_nal_from_bytes, sp_escape};
use crate::nal_iterator::{NalIterator, sp_iter_next};
use crate::parse_nal::{SliceHeader, sp_parse_slice};
use crate::parse_h264::{ParseError, ue_bits};
use crate::bitio::{BitWriter, bytes_bits, uint_bits};
use crate::state::{ShortLoop, sp_clamp_milli};
use crate::osc_var::LoopRange;
use rand::Rng;

verus! {

/// Relies on rand's `Rng::gen_range` over `0..1000`: a fresh draw
/// below one thousand, for the per-byte corruption coin.
#[verifier::external_body]
fn rand_below_1000() -> (r: u32)
    ensures r < 1000
{
    rand::thread_rng().gen_range(0..1000)
}

/// Relies on rand's `Rng::gen`: a fresh random byte.
#[verifier::external_body]
fn rand_byte() -> (r: u8)
{
    rand::thread_rng().gen()
}

/// An in-memory source video: its parsed NAL units, in stream order.
#[derive(Debug)]
pub struct LoadedVideo {
    pub frames: Vec<NalUnit>,
}

/// The view of one parsed unit.
pub open spec fn sp_unit_view(u: NalUnit) -> (u8, NALUnitType, Seq<u8>) {
    (u.nal_ref_idc, u.nal_unit_type, u.rbsp@)
}

/// The units a byte stream holds: each splitter payload that parses
/// is kept, the rest are dropped.
pub open spec fn sp_video_frames(rest: Seq<u8>, started: bool)
    -> Seq<(u8, NALUnitType, Seq<u8>)>
    decreases rest.len()
{
    let (res, rest2, started2) = sp_iter_next(rest, started);
    match res {
        None => Seq::empty(),
        Some(p) => {
            let tail = if rest2.len() < rest.len() {
                sp_video_frames(rest2, started2)
            } else {
                Seq::empty()
            };
            match sp_nal_from_bytes(p) {
                Ok(t) => seq![t] + tail,
                Err(_) => tail,
            }
        },
    }
}

/// One `next` call consumes input whenever it yields a payload.
proof fn lemma_iter_next_consumes(rest: Seq<u8>, started: bool)
    ensures ({
        let (res, rest2, started2) = sp_iter_next(rest, started);
        res is Some ==> rest2.len() < rest.len()
    })
{
    crate::nal_iterator::lemma_sp_split_step_consumes(rest, 0, Seq::empty());
    let first = crate::nal_iterator::sp_split_step(rest, 0, Seq::empty());
    if !started {
        match first {
            None => {},
            Some((junk, r1)) => {
                crate::nal_iterator::lemma_sp_split_step_consumes(r1, 0, Seq::empty());
            },
        }
    }
}

/// Parse a whole byte stream into its frame list, dropping payloads
/// that do not parse.
pub fn parse_video(data: Vec<u8>) -> (r: LoadedVideo)
    ensures
        r.frames@.map_values(|u: NalUnit| sp_unit_view(u))
            == sp_video_frames(data@, false),
        forall|i: int| 0 <= i < r.frames@.len() ==> (#[trigger] r.frames@[i]).wf(),
{
    let ghost whole = sp_video_frames(data@, false);
    let mut it = NalIterator::new(data);
    let mut frames: Vec<NalUnit> = Vec::new();
    proof {
        assert(frames@.map_values(|u: NalUnit| sp_unit_view(u))
            + sp_video_frames(it.rest(), it.started()) =~= whole);
    }
    loop
        invariant
            it.wf(),
            frames@.map_values(|u: NalUnit| sp_unit_view(u))
                + sp_video_frames(it.rest(), it.started()) == whole,
            forall|i: int| 0 <= i < frames@.len() ==> (#[trigger] frames@[i]).wf(),
        ensures
            frames@.map_values(|u: NalUnit| sp_unit_view(u)) == whole,
            forall|i: int| 0 <= i < frames@.len() ==> (#[trigger] frames@[i]).wf(),
        decreases it.rest().len(),
    {
        let ghost rest0 = it.rest();
        let ghost started0 = it.started();
        proof {
            lemma_iter_next_consumes(rest0, started0);
        }
        match it.next() {
            None => {
                proof {
                    assert(sp_video_frames(rest0, started0) =~= Seq::empty());
                    assert(frames@.map_values(|u: NalUnit| sp_unit_view(u)) + Seq::empty()
                        =~= frames@.map_values(|u: NalUnit| sp_unit_view(u)));
                }
                break;
            },
            Some(payload) => {
                let ghost before = frames@.map_values(|u: NalUnit| sp_unit_view(u));
                match NalUnit::from_bytes(payload.as_slice()) {
                    Ok(u) => {
                        frames.push(u);
                        proof {
                            assert(frames@.map_values(|u2: NalUnit| sp_unit_view(u2))
                                =~= before + seq![sp_unit_view(u)]);
                            assert(before + seq![sp_unit_view(u)]
                                + sp_video_frames(it.rest(), it.started())
                                =~= before + (seq![sp_unit_view(u)]
                                    + sp_video_frames(it.rest(), it.started())));
                        }
                    },
                    Err(_) => {},
                }
            },
        }
    }
    LoadedVideo { frames }
}

/// The video to switch to this tick: the active selection, when it
/// differs from the playing one and is in range.
pub fn check_video_switch(current_video_num: usize, selected: i32, num_videos: usize)
    -> (r: Option<usize>)
    ensures r == (if selected >= 0 && (selected as int) < num_videos as int
        && selected as int != current_video_num as int {
        Some(selected as usize)
    } else {
        None::<usize>
    })
{
    if selected >= 0 && (selected as usize) < num_videos
        && (selected as usize) != current_video_num {
        Some(selected as usize)
    } else {
        None
    }
}

/// The short loop after its first use latched the current frame.
pub open spec fn sp_latched(sl: Option<ShortLoop>, cur: usize) -> Option<ShortLoop> {
    match sl {
        None => None,
        Some(s) => Some(ShortLoop {
            first_frame: Some(match s.first_frame {
                Some(f) => f,
                None => cur,
            }),
            len: s.len,
        }),
    }
}

/// The frame window `[from, to)` this tick plays in, out of `n`
/// frames: the latched short loop wins, else the loop range scaled to
/// the video, else the whole video.  The window is clamped so that
/// `0 <= from < to <= n`.
pub open spec fn sp_frame_window(n: int, sl: Option<ShortLoop>, lr: LoopRange)
    -> (int, int)
    recommends n >= 2
{
    match sl {
        Some(s) => {
            let first = match s.first_frame { Some(f) => f as int, None => 0 };
            let from = if first < n - 2 { first } else { n - 2 };
            let hi = first + s.len;
            let lo = from + 1;
            let to = if (if hi > lo { hi } else { lo }) < n {
                if hi > lo { hi } else { lo }
            } else {
                n
            };
            (from, to)
        },
        None => match lr.0 {
            Some((a, b)) => {
                let af = sp_clamp_milli(a);
                let bf = sp_clamp_milli(b);
                let lo0 = n * af / 1000;
                let hi0 = n * bf / 1000;
                let from = if lo0 < n - 2 { lo0 } else { n - 2 };
                let lo = from + 1;
                let to = if (if hi0 > lo { hi0 } else { lo }) < n {
                    if hi0 > lo { hi0 } else { lo }
                } else {
                    n
                };
                (from, to)
            },
            None => (0, n),
        },
    }
}

/// Where the playhead lands after one step in `[from, to)`: below the
/// window it snaps to `from`; inside it moves one frame on, wrapping
/// from the last frame back to `from`.
pub open spec fn sp_advance(cur: int, from: int, to: int) -> int {
    if cur < from {
        from
    } else if cur + 1 >= to {
        from
    } else {
        cur + 1
    }
}

/// Advance the playhead one step, honouring the short loop (latching
/// its first frame on first use) and the loop range.
#[verifier::rlimit(100)]
pub fn advance_frame(current_frame: &mut usize, total_frames: usize,
    short_loop: &mut Option<ShortLoop>, loop_range: LoopRange)
    requires total_frames >= 2
    ensures
        *final(short_loop) == sp_latched(*old(short_loop), *old(current_frame)),
        ({
            let w = sp_frame_window(total_frames as int, *final(short_loop), loop_range);
            &&& 0 <= w.0 < w.1 <= total_frames
            &&& *final(current_frame) == sp_advance(*old(current_frame) as int, w.0, w.1)
            &&& w.0 <= *final(current_frame) < w.1
            &&& (w.0 <= *old(current_frame) < w.1 - 1 ==>
                *final(current_frame) == *old(current_frame) + 1)
            &&& (*old(current_frame) == w.1 - 1 ==> *final(current_frame) == w.0)
            &&& (*old(current_frame) < w.0 ==> *final(current_frame) == w.0)
        }),
{
    let n = total_frames;
    let mut from_incl: usize = 0;
    let mut to_excl: usize = n;
    match *short_loop {
        Some(sl) => {
            let first = match sl.first_frame {
                Some(f) => f,
                None => *current_frame,
            };
            *short_loop = Some(ShortLoop { first_frame: Some(first), len: sl.len });
            from_incl = if first < n - 2 { first } else { n - 2 };
            let hi = if sl.len > n { n } else { first.checked_add(sl.len).unwrap_or(n) };
            let lo = from_incl + 1;
            let cap = if hi > lo { hi } else { lo };
            to_excl = if cap < n { cap } else { n };
            proof {
                let w = sp_frame_window(n as int, *short_loop, loop_range);
                assert(from_incl == w.0);
                assert(to_excl == w.1);
            }
        },
        None => {
            match loop_range.0 {
                Some((a, b)) => {
                    let af = clamp_milli_pub(a);
                    let bf = clamp_milli_pub(b);
                    proof {
                        assert((n as u128) * (af as u128) <= (n as u128) * 1000
                            && (n as u128) * (bf as u128) <= (n as u128) * 1000
                            && 0 <= (n as u128) * (af as u128)
                            && 0 <= (n as u128) * (bf as u128)
                            && (n as u128) * 1000 < 0x100000000000000000000u128)
                            by (nonlinear_arith)
                            requires 0 <= af as u128 <= 1000, 0 <= bf as u128 <= 1000,
                                (n as u128) < 0x10000000000000000u128,
                        ;
                        vstd::arithmetic::div_mod::lemma_div_is_ordered(
                            ((n as u128) * (af as u128)) as int,
                            ((n as u128) * 1000) as int, 1000);
                        vstd::arithmetic::div_mod::lemma_div_is_ordered(
                            ((n as u128) * (bf as u128)) as int,
                            ((n as u128) * 1000) as int, 1000);
                        assert(((n as u128) * 1000) as int / 1000 == n as int) by {
                            vstd::arithmetic::div_mod::lemma_div_multiples_vanish(
                                n as int, 1000);
                        }
                    }
                    let lo0: usize = ((n as u128) * (af as u128) / 1000) as usize;
                    let hi0: usize = ((n as u128) * (bf as u128) / 1000) as usize;
                    from_incl = if lo0 < n - 2 { lo0 } else { n - 2 };
                    let lo = from_incl + 1;
                    let cap = if hi0 > lo { hi0 } else { lo };
                    to_excl = if cap < n { cap } else { n };
                },
                None => {},
            }
        },
    }
    if *current_frame < from_incl {
        *current_frame = from_incl;
    } else {
        if *current_frame >= to_excl - 1 {
            *current_frame = from_incl;
        } else {
            *current_frame = *current_frame + 1;
        }
    }
}

/// Clamp into the normalized thousandths range.
fn clamp_milli_pub(v: i64) -> (r: i64)
    ensures r == sp_clamp_milli(v), 0 <= r <= 1000
{
    if v < 0 {
        0
    } else if v > 1000 {
        1000
    } else {
        v
    }
}

/// Whether this tick's unit is emitted: non-IDR slices always, the
/// rest only when the active slot passes keyframes through.
pub fn should_emit(nal_unit_type: &NALUnitType, pass_iframe: bool) -> (r: bool)
    ensures r == (*nal_unit_type == NALUnitType::CodedSliceNonIdr || pass_iframe)
{
    nal_unit_type.is_picture_data() && *nal_unit_type != NALUnitType::CodedSliceIdr
        || *nal_unit_type == NALUnitType::CodedSliceNonIdr || pass_iframe
}

/// The playhead position in thousandths of the video.
pub fn playhead_milli(current_frame: usize, total_frames: usize) -> (r: i64)
    requires total_frames >= 1, current_frame <= total_frames
    ensures r == (current_frame as int) * 1000 / (total_frames as int),
        0 <= r <= 1000
{
    proof {
        assert((current_frame as u128) * 1000 <= (total_frames as u128) * 1000
            && (total_frames as u128) * 1000 < 0x100000000000000000000u128
            && 0 <= (current_frame as u128) * 1000)
            by (nonlinear_arith)
            requires current_frame as u128 <= total_frames as u128,
                (total_frames as u128) < 0x10000000000000000u128,
        ;
        vstd::arithmetic::div_mod::lemma_div_is_ordered(
            ((current_frame as u128) * 1000) as int,
            ((total_frames as u128) * 1000) as int, total_frames as int);
        assert(((total_frames as u128) * 1000) as int / (total_frames as int) == 1000)
        by {
            vstd::arithmetic::div_mod::lemma_div_multiples_vanish(
                1000, total_frames as int);
        }
    }
    let v: u128 = (current_frame as u128) * 1000 / (total_frames as u128);
    v as i64
}

/// Replace each byte from the corruption offset on with a random one,
/// each with the given probability in thousandths.  A probability of
/// zero or less leaves the bytes alone; the leading bytes are always
/// kept, so the slice header survives.
pub fn corrupt_tail(data: &mut Vec<u8>, byte_errors_milli: i64)
    ensures
        final(data)@.len() == old(data)@.len(),
        forall|i: int| 0 <= i < 50 && i < old(data)@.len() ==>
            #[trigger] final(data)@[i] == old(data)@[i],
        byte_errors_milli <= 0 ==> final(data)@ == old(data)@,
{
    if byte_errors_milli <= 0 {
        return;
    }
    let mut i: usize = 50;
    while i < data.len()
        invariant
            50 <= i,
            data@.len() == old(data)@.len(),
            forall|j: int| 0 <= j < 50 && j < old(data)@.len() ==>
                #[trigger] data@[j] == old(data)@[j],
        decreases data@.len() - i,
    {
        let draw = rand_below_1000();
        if (draw as i64) < byte_errors_milli {
            let b = rand_byte();
            data.set(i, b);
        }
        i = i + 1;
    }
}

/// One rendered slice: `d` is the header bytes after corruption
/// (length kept, the leading bytes kept, untouched when the
/// probability is zero or less) and `rbsp2` its re-serialization with
/// the new `frame_num`; the output is the NAL header byte followed by
/// the escaped payload.
pub open spec fn sp_rendered_slice(out: Seq<u8>, unit: NalUnit, mb: nat, st: nat,
    pps: nat, newfn: nat, tail_pos: int, byte_errors_milli: i64, d: Seq<u8>,
    rbsp2: Seq<u8>) -> bool
{
    &&& d.len() == unit.rbsp@.len()
    &&& (forall|i: int| 0 <= i < 50 && i < d.len() ==> #[trigger] d[i] == unit.rbsp@[i])
    &&& (byte_errors_milli <= 0 ==> d == unit.rbsp@)
    &&& bytes_bits(rbsp2) == sp_slice_bits_with(mb, st, pps, newfn, d, tail_pos)
    &&& out == seq![(unit.nal_ref_idc * 32 + unit.nal_unit_type.sp_code()) as u8]
        + sp_escape(rbsp2)
}

/// Some corruption outcome explains the rendered bytes.
pub open spec fn sp_rendered_ok(out: Seq<u8>, unit: NalUnit, mb: nat, st: nat, pps: nat,
    newfn: nat, tail_pos: int, byte_errors_milli: i64) -> bool
{
    exists|d: Seq<u8>, rbsp2: Seq<u8>|
        #[trigger] sp_rendered_slice(out, unit, mb, st, pps, newfn, tail_pos,
            byte_errors_milli, d, rbsp2)
}

/// The serialized slice-header bits for a given tail byte sequence,
/// with `frame_num` as four bits.
pub open spec fn sp_slice_bits_with(mb: nat, st: nat, pps: nat, frame_num: nat,
    tail_bytes: Seq<u8>, tail_pos: int) -> Seq<bool>
{
    let body = ue_bits(mb) + ue_bits(st) + ue_bits(pps) + uint_bits(frame_num, 4)
        + bytes_bits(tail_bytes).skip(tail_pos);
    body + Seq::new(BitWriter::align_pad(body.len() as int) as nat, |i: int| false)
}

/// Render one unit for emission.  A coded slice, when rewriting or
/// corrupting, has its header re-parsed, its `frame_num` replaced by
/// the running counter, its body bytes corrupted at random past the
/// fixed offset, and is re-serialized; anything else is serialized
/// unchanged.  The result is the NAL bytes without the start code.
pub fn render_frame(unit: &NalUnit, rewrite_frame_nums: bool, byte_errors_milli: i64,
    last_frame_num: &mut u32) -> (r: Result<Vec<u8>, ParseError>)
    requires
        unit.wf(),
        *old(last_frame_num) < 16,
    ensures
        *final(last_frame_num) < 16,
        ({
            let slice = unit.nal_unit_type == NALUnitType::CodedSliceIdr
                || unit.nal_unit_type == NALUnitType::CodedSliceNonIdr;
            let touching = slice && (rewrite_frame_nums || byte_errors_milli > 0);
            &&& !touching ==> {
                &&& *final(last_frame_num) == *old(last_frame_num)
                &&& r is Ok && r->Ok_0@ == unit.sp_to_bytes()
            }
            &&& touching ==> match sp_parse_slice(unit.rbsp@) {
                Err(e) => r == Err::<Vec<u8>, ParseError>(e)
                    && *final(last_frame_num) == *old(last_frame_num),
                Ok(((mb, st, pps, fnum), tail_pos)) => {
                    let newfn: nat = if rewrite_frame_nums {
                        *old(last_frame_num) as nat
                    } else {
                        fnum
                    };
                    &&& *final(last_frame_num) as int == (if rewrite_frame_nums {
                        (*old(last_frame_num) + 1) % 16
                    } else {
                        *old(last_frame_num) as int
                    })
                    &&& r is Ok
                    &&& sp_rendered_ok(r->Ok_0@, *unit, mb, st, pps, newfn, tail_pos,
                        byte_errors_milli)
                },
            }
        }),
{
    let slice = match unit.nal_unit_type {
        NALUnitType::CodedSliceIdr | NALUnitType::CodedSliceNonIdr => true,
        _ => false,
    };
    if !(slice && (rewrite_frame_nums || byte_errors_milli > 0)) {
        return Ok(unit.to_bytes());
    }
    let mut header = match SliceHeader::from_bytes(unit.rbsp.as_slice()) {
        Ok(h) => h,
        Err(e) => {
            return Err(e);
        },
    };
    if rewrite_frame_nums {
        header.frame_num = *last_frame_num;
        *last_frame_num = (*last_frame_num + 1) % 16;
    }
    corrupt_tail(&mut header.data, byte_errors_milli);
    proof {
        crate::bitio::lemma_bytes_bits_len(header.data@);
        crate::bitio::lemma_bytes_bits_len(unit.rbsp@);
        assert(header.wf());
    }
    let rbsp2 = header.to_bytes();
    let code = unit.nal_unit_type.code();
    let hdr: u8 = unit.nal_ref_idc * 32 + code;
    let mut out: Vec<u8> = Vec::new();
    out.push(hdr);
    let mut enc = crate::nal::encode_rbsp_to_nal(rbsp2.as_slice());
    out.append(&mut enc);
    proof {
        let d = header.data@;
        assert(out@ =~= seq![hdr] + sp_escape(rbsp2@));
        let parsed = sp_parse_slice(unit.rbsp@);
        let mb = parsed->Ok_0.0.0;
        let st = parsed->Ok_0.0.1;
        let pps = parsed->Ok_0.0.2;
        let fnum = parsed->Ok_0.0.3;
        let tail_pos = parsed->Ok_0.1;
        let newfn: nat = if rewrite_frame_nums {
            *old(last_frame_num) as nat
        } else {
            fnum
        };
        assert(header.frame_num as nat == newfn);
        assert(sp_rendered_ok(out@, *unit, mb, st, pps, newfn, tail_pos,
            byte_errors_milli))
        by {
            assert(sp_rendered_slice(out@, *unit, mb, st, pps, newfn, tail_pos,
                byte_errors_milli, d, rbsp2@));
        }
    }
    Ok(out)
}

/// The palette index of each video label: the index steps, modulo the
/// palette size, whenever the directory changes from the previous
/// entry, starting one step in.
pub open spec fn sp_palette(dirs: Seq<u64>, i: int) -> int
    recommends 0 <= i < dirs.len()
    decreases i when 0 <= i
{
    if i <= 0 {
        1int % 5
    } else if dirs[i] == dirs[i - 1] {
        sp_palette(dirs, i - 1)
    } else {
        (sp_palette(dirs, i - 1) + 1) % 5
    }
}

/// The label colour of each video: one palette index per entry, a new
/// colour whenever the directory changes.
pub fn palette_indices(dir_ids: &Vec<u64>) -> (r: Vec<usize>)
    ensures
        r@.len() == dir_ids@.len(),
        forall|i: int| 0 <= i < dir_ids@.len() ==>
            #[trigger] r@[i] == sp_palette(dir_ids@, i),
{
    let mut r: Vec<usize> = Vec::new();
    let mut color: usize = 0;
    let mut i: usize = 0;
    while i < dir_ids.len()
        invariant
            i <= dir_ids@.len(),
            r@.len() == i,
            color < 5,
            i > 0 ==> color == sp_palette(dir_ids@, i - 1),
            forall|j: int| 0 <= j < i ==> #[trigger] r@[j] == sp_palette(dir_ids@, j),
        decreases dir_ids@.len() - i,
    {
        if i == 0 {
            color = 1 % 5;
        } else if dir_ids[i] != dir_ids[i - 1] {
            color = (color + 1) % 5;
        }
        r.push(color);
        i = i + 1;
    }
    r
}

} // verus!
