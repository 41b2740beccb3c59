//! The context-aware slice-header reader: it takes the active SPS and
//! PPS, reads `frame_num` with the width the SPS gives, and keeps the
//! raw bytes with the bit position after `frame_num` so the header can
//! be re-serialized unchanged except for `frame_num`.

use vstd::prelude::*;
use crate::bitio::{BitReader, BitWriter, bytes_bits, uint_bits};
use crate::parse_h264::{ParseError, sp_ue, sp_se, sp_read_bit, sp_read_bits, ue_bits,
    read_ue, read_se, read_bit_r, read_bits_r, write_ue};
use crate::h264::NALUnitType;
use crate::sps::{Sps, PicOrderCntType};
use crate::pps::Pps;

verus! {

impl Sps {
    /// The chroma array type: zero when the colour planes are coded
    /// separately, else the chroma format.
    pub fn chroma_array_type(&self) -> (r: u8)
        ensures r == (if self.separate_colour_plane_flag { 0u8 }
            else { self.chroma_format_idc })
    {
        if self.separate_colour_plane_flag {
            0
        } else {
            self.chroma_format_idc
        }
    }
}

/// The prediction weight table.  Parsing one is unsupported: the
/// reader walks its fields and then fails with `Unimplemented`.
#[derive(Clone, Copy, Debug)]
pub struct PredWeightTable {
}

/// Where walking one weight-table entry at `pos` ends.
pub open spec fn sp_pwt_item(bits: Seq<bool>, pos: int, chroma_nonzero: bool)
    -> Result<int, ParseError>
{
    match sp_read_bit(bits, pos) {
        Err(e) => Err(e),
        Ok((luma_flag, p1)) => {
            let luma_step: Result<int, ParseError> = if luma_flag {
                match sp_se(bits, p1) {
                    Err(e) => Err(e),
                    Ok((_, p2)) => match sp_se(bits, p2) {
                        Err(e) => Err(e),
                        Ok((_, p3)) => Ok(p3),
                    },
                }
            } else {
                Ok(p1)
            };
            match luma_step {
                Err(e) => Err(e),
                Ok(p2) => if chroma_nonzero {
                    match sp_read_bit(bits, p2) {
                        Err(e) => Err(e),
                        Ok((cflag, p3)) => if cflag {
                            match sp_se(bits, p3) {
                                Err(e) => Err(e),
                                Ok((_, p4)) => match sp_se(bits, p4) {
                                    Err(e) => Err(e),
                                    Ok((_, p5)) => match sp_se(bits, p5) {
                                        Err(e) => Err(e),
                                        Ok((_, p6)) => match sp_se(bits, p6) {
                                            Err(e) => Err(e),
                                            Ok((_, p7)) => Ok(p7),
                                        },
                                    },
                                },
                            }
                        } else {
                            Ok(p3)
                        },
                    }
                } else {
                    Ok(p2)
                },
            }
        },
    }
}

/// Where walking `count` weight-table entries at `pos` ends.
pub open spec fn sp_pwt_items(bits: Seq<bool>, pos: int, chroma_nonzero: bool, count: nat)
    -> Result<int, ParseError>
    decreases count
{
    if count == 0 {
        Ok(pos)
    } else {
        match sp_pwt_item(bits, pos, chroma_nonzero) {
            Err(e) => Err(e),
            Ok(p) => sp_pwt_items(bits, p, chroma_nonzero, (count - 1) as nat),
        }
    }
}

/// Walk one weight-table entry.
fn read_pwt_item(reader: &mut BitReader, chroma_nonzero: bool)
    -> (r: Result<(), ParseError>)
    requires old(reader).wf()
    ensures
        final(reader).wf(),
        final(reader).bits() == old(reader).bits(),
        match r {
            Ok(()) => sp_pwt_item(old(reader).bits(), old(reader).pos(), chroma_nonzero)
                == Ok::<int, ParseError>(final(reader).pos()),
            Err(e) => {
                &&& sp_pwt_item(old(reader).bits(), old(reader).pos(), chroma_nonzero)
                    == Err::<int, ParseError>(e)
                &&& e != ParseError::Io
            },
        },
{
    let luma_flag = match read_bit_r(reader) {
        Ok(v) => v, Err(e) => { return Err(e); },
    };
    if luma_flag {
        match read_se(reader) {
            Ok(_) => {}, Err(e) => { return Err(e); },
        }
        match read_se(reader) {
            Ok(_) => {}, Err(e) => { return Err(e); },
        }
    }
    if chroma_nonzero {
        let cflag = match read_bit_r(reader) {
            Ok(v) => v, Err(e) => { return Err(e); },
        };
        if cflag {
            match read_se(reader) {
                Ok(_) => {}, Err(e) => { return Err(e); },
            }
            match read_se(reader) {
                Ok(_) => {}, Err(e) => { return Err(e); },
            }
            match read_se(reader) {
                Ok(_) => {}, Err(e) => { return Err(e); },
            }
            match read_se(reader) {
                Ok(_) => {}, Err(e) => { return Err(e); },
            }
        }
    }
    Ok(())
}

/// The error a weight-table read ends in: its fields are walked, then
/// the table is unsupported.
pub open spec fn sp_read_pwt(bits: Seq<bool>, pos: int, chroma_nonzero: bool, n: nat)
    -> ParseError
{
    match sp_ue(bits, pos) {
        Err(e) => e,
        Ok((_, p1)) => {
            let cl_step: Result<int, ParseError> = if chroma_nonzero {
                match sp_ue(bits, p1) {
                    Err(e) => Err(e),
                    Ok((_, p2)) => Ok(p2),
                }
            } else {
                Ok(p1)
            };
            match cl_step {
                Err(e) => e,
                Ok(p2) => match sp_pwt_items(bits, p2, chroma_nonzero, n + 1) {
                    Err(e) => e,
                    Ok(_) => ParseError::Unimplemented,
                },
            }
        },
    }
}

impl PredWeightTable {
    /// Walk a prediction weight table's fields; the table itself is
    /// unsupported, so every read ends in an error.
    #[verifier::rlimit(100)]
    pub fn read(reader: &mut BitReader, sps: &Sps, num_ref_idx_l0_active_minus1: u32)
        -> (r: Result<Self, ParseError>)
        requires old(reader).wf()
        ensures
            final(reader).wf(),
            final(reader).bits() == old(reader).bits(),
            match r {
                Ok(_) => false,
                Err(e) => {
                    &&& e == sp_read_pwt(old(reader).bits(), old(reader).pos(),
                        (if sps.separate_colour_plane_flag { 0u8 }
                            else { sps.chroma_format_idc }) != 0,
                        num_ref_idx_l0_active_minus1 as nat)
                    &&& e != ParseError::Io
                },
            },
    {
        let ghost bits = reader.bits();
        let chroma_nonzero = sps.chroma_array_type() != 0;
        match read_ue(reader) {
            Ok(_) => {},
            Err(e) => { return Err(e); },
        }
        if chroma_nonzero {
            match read_ue(reader) {
                Ok(_) => {},
                Err(e) => { return Err(e); },
            }
        }
        let ghost p2 = reader.pos();
        let ghost p0 = old(reader).pos();
        let ghost cn = chroma_nonzero;
        let ghost n = num_ref_idx_l0_active_minus1 as nat;
        proof {
            assert(sp_read_pwt(bits, p0, cn, n)
                == (match sp_pwt_items(bits, p2, cn, n + 1) {
                    Err(e) => e,
                    Ok(_) => ParseError::Unimplemented,
                }));
        }
        let mut i: u32 = 0;
        let count = num_ref_idx_l0_active_minus1;
        loop
            invariant_except_break
                i <= count,
                sp_pwt_items(bits, p2, chroma_nonzero, (count + 1) as nat)
                    == sp_pwt_items(bits, reader.pos(), chroma_nonzero,
                        (count + 1 - i) as nat),
            invariant
                reader.wf(),
                reader.bits() == bits,
                bits == old(reader).bits(),
                cn == chroma_nonzero,
                cn == ((if sps.separate_colour_plane_flag { 0u8 }
                    else { sps.chroma_format_idc }) != 0),
                n == count as nat,
                n == num_ref_idx_l0_active_minus1 as nat,
                sp_read_pwt(bits, old(reader).pos(), cn, n)
                    == (match sp_pwt_items(bits, p2, cn, n + 1) {
                        Err(e) => e,
                        Ok(_) => ParseError::Unimplemented,
                    }),
            ensures
                reader.wf(),
                reader.bits() == bits,
                sp_pwt_items(bits, p2, chroma_nonzero, (count + 1) as nat)
                    == Ok::<int, ParseError>(reader.pos()),
            decreases count - i,
        {
            let ghost prev = reader.pos();
            match read_pwt_item(reader, chroma_nonzero) {
                Ok(()) => {},
                Err(e) => {
                    proof {
                        assert(sp_pwt_items(bits, prev, cn, (count + 1 - i) as nat)
                            == Err::<int, ParseError>(e));
                    }
                    return Err(e);
                },
            }
            proof {
                assert(sp_pwt_items(bits, prev, cn, (count + 1 - i) as nat)
                    == sp_pwt_items(bits, reader.pos(), cn, (count - i) as nat));
            }
            if i == count {
                proof {
                    assert(sp_pwt_items(bits, reader.pos(), cn, 0nat)
                        == Ok::<int, ParseError>(reader.pos()));
                }
                break;
            }
            i = i + 1;
        }
        Err(ParseError::Unimplemented)
    }
}

/// A slice header read against its SPS and PPS: the decoded fields
/// plus the raw bytes and the bit position of the first bit after
/// `frame_num`.
#[derive(Debug)]
pub struct SliceHeader {
    pub first_mb_in_slice: u32,
    pub slice_type: u32,
    pub pic_parameter_set_id: u32,
    pub frame_num: u32,
    pub field_pic_flag: bool,
    pub bottom_field_flag: bool,
    pub idr_pic_id: Option<u32>,
    pub redundant_pic_cnt: Option<u32>,
    pub pred_weight_table: Option<PredWeightTable>,
    pub data: Vec<u8>,
    /// Byte part of the retained-tail position; set by `from_bytes`.
    pub data_offset_byte: usize,
    /// Bit part of the retained-tail position; set by `from_bytes`.
    pub data_offset_bit: usize,
}

/// What parsing the slice-header fields through `redundant_pic_cnt`
/// yields: `(first_mb, slice_type, pps_id, frame_num, field_pic,
/// bottom_field, idr_pic_id, redundant_pic_cnt)`, the position after
/// `frame_num`, and the position after the whole group.
pub open spec fn sp_read_slice_head(bits: Seq<bool>, pos: int, sps: Sps, pps: Pps,
    nut: NALUnitType)
    -> Result<((u32, u32, u32, u32, bool, bool, Option<u32>, Option<u32>), int, int),
        ParseError>
{
    match sp_ue(bits, pos) {
        Err(e) => Err(e),
        Ok((mb, p1)) => match sp_ue(bits, p1) {
            Err(e) => Err(e),
            Ok((st, p2)) => match sp_ue(bits, p2) {
                Err(e) => Err(e),
                Ok((ppsid, p3)) => if ppsid != pps.pic_parameter_set_id {
                    Err(ParseError::InvalidData)
                } else if pps.seq_parameter_set_id != sps.seq_parameter_set_id {
                    Err(ParseError::InvalidData)
                } else {
                    let colour_step: Result<int, ParseError> =
                        if sps.separate_colour_plane_flag {
                            match sp_read_bits(bits, p3, 2) {
                                Err(e) => Err(e),
                                Ok((_, p4)) => Ok(p4),
                            }
                        } else {
                            Ok(p3)
                        };
                    match colour_step {
                        Err(e) => Err(e),
                        Ok(p4) => if sps.log2_max_frame_num_minus4 > 28 {
                            Err(ParseError::InvalidData)
                        } else {
                            match sp_read_bits(bits, p4,
                                sps.log2_max_frame_num_minus4 + 4) {
                                Err(e) => Err(e),
                                Ok((fnum, p5)) => sp_read_slice_head_b(bits, p5, sps, pps,
                                    nut, (mb as u32, st as u32, ppsid as u32, fnum as u32),
                                    p5),
                            }
                        },
                    }
                },
            },
        },
    }
}

/// The field flags, `idr_pic_id`, the picture order count check and
/// `redundant_pic_cnt`; `tail` is the position after `frame_num`.
pub open spec fn sp_read_slice_head_b(bits: Seq<bool>, pos: int, sps: Sps, pps: Pps,
    nut: NALUnitType, head: (u32, u32, u32, u32), tail: int)
    -> Result<((u32, u32, u32, u32, bool, bool, Option<u32>, Option<u32>), int, int),
        ParseError>
{
    let field_step: Result<((bool, bool), int), ParseError> = if !sps.frame_mbs_only_flag {
        match sp_read_bit(bits, pos) {
            Err(e) => Err(e),
            Ok((fp, p1)) => if fp {
                match sp_read_bit(bits, p1) {
                    Err(e) => Err(e),
                    Ok((bf, p2)) => Ok(((true, bf), p2)),
                }
            } else {
                Ok(((false, false), p1))
            },
        }
    } else {
        Ok(((false, false), pos))
    };
    match field_step {
        Err(e) => Err(e),
        Ok(((field_pic, bottom), p1)) => {
            let idr_step: Result<(Option<u32>, int), ParseError> =
                if nut == NALUnitType::CodedSliceIdr {
                    match sp_ue(bits, p1) {
                        Err(e) => Err(e),
                        Ok((id, p2)) => Ok((Some(id as u32), p2)),
                    }
                } else {
                    Ok((None, p1))
                };
            match idr_step {
                Err(e) => Err(e),
                Ok((idr, p2)) => match sps.pic_order_cnt_type {
                    PicOrderCntType::Type0(_) => Err(ParseError::Unimplemented),
                    PicOrderCntType::Type2 => {
                        let red_step: Result<(Option<u32>, int), ParseError> =
                            if pps.redundant_pic_cnt_present_flag {
                                match sp_ue(bits, p2) {
                                    Err(e) => Err(e),
                                    Ok((rc, p3)) => Ok((Some(rc as u32), p3)),
                                }
                            } else {
                                Ok((None, p2))
                            };
                        match red_step {
                            Err(e) => Err(e),
                            Ok((red, p3)) => Ok((
                                (head.0, head.1, head.2, head.3, field_pic, bottom, idr,
                                    red),
                                tail, p3)),
                        }
                    },
                },
            }
        },
    }
}

/// Where walking the remaining slice-header fields ends, or why it
/// fails; `st` is the slice type, `l0` below is the overridden
/// `num_ref_idx_l0_active_minus1` if any.
pub open spec fn sp_read_slice_rest(bits: Seq<bool>, pos: int, sps: Sps, pps: Pps,
    nut: NALUnitType, nri: u8, st: u32) -> Result<int, ParseError>
{
    let b_step: Result<int, ParseError> = if st % 5 == 1 {
        match sp_read_bit(bits, pos) {
            Err(e) => Err(e),
            Ok((_, p1)) => Ok(p1),
        }
    } else {
        Ok(pos)
    };
    match b_step {
        Err(e) => Err(e),
        Ok(p1) => {
            let ref_step: Result<(Option<u32>, int), ParseError> =
                if st % 5 == 0 || st % 5 == 3 || st % 5 == 1 {
                    match sp_read_bit(bits, p1) {
                        Err(e) => Err(e),
                        Ok((flag, p2)) => if flag {
                            match sp_ue(bits, p2) {
                                Err(e) => Err(e),
                                Ok((l0, p3)) => if st % 5 == 1 {
                                    match sp_ue(bits, p3) {
                                        Err(e) => Err(e),
                                        Ok((_, p4)) => Ok((Some(l0 as u32), p4)),
                                    }
                                } else {
                                    Ok((Some(l0 as u32), p3))
                                },
                            }
                        } else {
                            Ok((None, p2))
                        },
                    }
                } else {
                    Ok((None, p1))
                };
            match ref_step {
                Err(e) => Err(e),
                Ok((l0, p2)) => if nut == NALUnitType::CodedSliceSvcExtension
                    || nut == NALUnitType::NAL21 {
                    Err(ParseError::Unimplemented)
                } else if pps.weighted_pred_flag && (st % 5 == 0 || st % 5 == 3)
                    || (pps.weighted_bipred_idc == 1 && st % 5 == 1) {
                    match l0 {
                        None => Err(ParseError::InvalidData),
                        Some(n) => Err(sp_read_pwt(bits, p2,
                            (if sps.separate_colour_plane_flag { 0u8 }
                                else { sps.chroma_format_idc }) != 0,
                            n as nat)),
                    }
                } else {
                    sp_read_slice_end(bits, p2, pps, st)
                },
            }
        },
    }
}

/// The CABAC index, `slice_qp_delta`, the SP/SI extras and the
/// deblocking block.
pub open spec fn sp_read_slice_end(bits: Seq<bool>, pos: int, pps: Pps, st: u32)
    -> Result<int, ParseError>
{
    let cabac_step: Result<int, ParseError> =
        if pps.entropy_coding_mode_flag && st % 5 != 2 && st % 5 != 4 {
            match sp_ue(bits, pos) {
                Err(e) => Err(e),
                Ok((_, p1)) => Ok(p1),
            }
        } else {
            Ok(pos)
        };
    match cabac_step {
        Err(e) => Err(e),
        Ok(p1) => match sp_se(bits, p1) {
            Err(e) => Err(e),
            Ok((_, p2)) => {
                let spsi_step: Result<int, ParseError> = if st % 5 == 3 || st % 5 == 4 {
                    let sw_step: Result<int, ParseError> = if st % 5 == 3 {
                        match sp_read_bit(bits, p2) {
                            Err(e) => Err(e),
                            Ok((_, p3)) => Ok(p3),
                        }
                    } else {
                        Ok(p2)
                    };
                    match sw_step {
                        Err(e) => Err(e),
                        Ok(p3) => match sp_se(bits, p3) {
                            Err(e) => Err(e),
                            Ok((_, p4)) => Ok(p4),
                        },
                    }
                } else {
                    Ok(p2)
                };
                match spsi_step {
                    Err(e) => Err(e),
                    Ok(p3) => if pps.deblocking_filter_control_present_flag {
                        match sp_ue(bits, p3) {
                            Err(e) => Err(e),
                            Ok((idc, p4)) => if idc != 1 {
                                match sp_se(bits, p4) {
                                    Err(e) => Err(e),
                                    Ok((_, p5)) => match sp_se(bits, p5) {
                                        Err(e) => Err(e),
                                        Ok((_, p6)) => Ok(p6),
                                    },
                                }
                            } else {
                                Ok(p4)
                            },
                        }
                    } else {
                        Ok(p3)
                    },
                }
            },
        },
    }
}

/// What parsing a whole slice header yields: the decoded fields, the
/// position after `frame_num` (where the retained tail starts), and
/// the position after everything the reader walks.
pub open spec fn sp_read_full_slice(s: Seq<u8>, sps: Sps, pps: Pps, nut: NALUnitType,
    nri: u8)
    -> Result<((u32, u32, u32, u32, bool, bool, Option<u32>, Option<u32>), int), ParseError>
{
    let bits = bytes_bits(s);
    match sp_read_slice_head(bits, 0, sps, pps, nut) {
        Err(e) => Err(e),
        Ok((fields, tail, p1)) => match sp_read_slice_rest(bits, p1, sps, pps, nut, nri,
            fields.1) {
            Err(e) => Err(e),
            Ok(_) => Ok((fields, tail)),
        },
    }
}

/// Read the slice-header fields through `redundant_pic_cnt`.
#[verifier::rlimit(100)]
fn read_slice_head(reader: &mut BitReader, sps: &Sps, pps: &Pps, nut: NALUnitType)
    -> (r: Result<((u32, u32, u32, u32, bool, bool, Option<u32>, Option<u32>),
        (usize, usize)), ParseError>)
    requires old(reader).wf(), old(reader).pos() == 0
    ensures
        final(reader).wf(),
        final(reader).bits() == old(reader).bits(),
        match r {
            Ok((fields, off)) => {
                &&& sp_read_slice_head(old(reader).bits(), 0, *sps, *pps, nut)
                    == Ok::<_, ParseError>((fields, 8 * off.0 + off.1 as int,
                        final(reader).pos()))
                &&& off.1 < 8
                &&& 8 * off.0 + off.1 <= old(reader).bits().len()
                &&& fields.0 <= 0xFFFF_FFFE
                &&& fields.1 <= 0xFFFF_FFFE
                &&& fields.2 <= 0xFFFF_FFFE
            },
            Err(e) => {
                &&& sp_read_slice_head(old(reader).bits(), 0, *sps, *pps, nut)
                    == Err::<((u32, u32, u32, u32, bool, bool, Option<u32>, Option<u32>),
                        int, int), ParseError>(e)
                &&& e != ParseError::Io
            },
        },
{
    let first_mb_in_slice = match read_ue(reader) {
        Ok(v) => v, Err(e) => { return Err(e); },
    };
    let slice_type = match read_ue(reader) {
        Ok(v) => v, Err(e) => { return Err(e); },
    };
    let pic_parameter_set_id = match read_ue(reader) {
        Ok(v) => v, Err(e) => { return Err(e); },
    };
    if pic_parameter_set_id != pps.pic_parameter_set_id {
        return Err(ParseError::InvalidData);
    }
    if pps.seq_parameter_set_id != sps.seq_parameter_set_id as u32 {
        return Err(ParseError::InvalidData);
    }
    if sps.separate_colour_plane_flag {
        match read_bits_r(reader, 2) {
            Ok(_) => {}, Err(e) => { return Err(e); },
        }
    }
    if sps.log2_max_frame_num_minus4 > 28 {
        return Err(ParseError::InvalidData);
    }
    let width = sps.log2_max_frame_num_minus4 as usize + 4;
    let frame_num = match read_bits_r(reader, width) {
        Ok(v) => v, Err(e) => { return Err(e); },
    };
    proof { reader.lemma_pos_le_len(); }
    let off = reader.tell();
    let mut field_pic_flag = false;
    let mut bottom_field_flag = false;
    if !sps.frame_mbs_only_flag {
        field_pic_flag = match read_bit_r(reader) {
            Ok(v) => v, Err(e) => { return Err(e); },
        };
        if field_pic_flag {
            bottom_field_flag = match read_bit_r(reader) {
                Ok(v) => v, Err(e) => { return Err(e); },
            };
        }
    }
    let idr_pic_id = if nut.idr_pic_flag() {
        match read_ue(reader) {
            Ok(v) => Some(v), Err(e) => { return Err(e); },
        }
    } else {
        None
    };
    match sps.pic_order_cnt_type {
        PicOrderCntType::Type2 => {},
        PicOrderCntType::Type0(_) => {
            return Err(ParseError::Unimplemented);
        },
    }
    let redundant_pic_cnt = if pps.redundant_pic_cnt_present_flag {
        match read_ue(reader) {
            Ok(v) => Some(v), Err(e) => { return Err(e); },
        }
    } else {
        None
    };
    Ok(((first_mb_in_slice, slice_type, pic_parameter_set_id, frame_num, field_pic_flag,
        bottom_field_flag, idr_pic_id, redundant_pic_cnt), off))
}

/// Walk the remaining slice-header fields.
#[verifier::rlimit(100)]
fn read_slice_rest(reader: &mut BitReader, sps: &Sps, pps: &Pps, nut: NALUnitType,
    nri: u8, st: u32) -> (r: Result<(), ParseError>)
    requires old(reader).wf()
    ensures
        final(reader).wf(),
        final(reader).bits() == old(reader).bits(),
        match r {
            Ok(()) => sp_read_slice_rest(old(reader).bits(), old(reader).pos(), *sps,
                    *pps, nut, nri, st)
                == Ok::<int, ParseError>(final(reader).pos()),
            Err(e) => {
                &&& sp_read_slice_rest(old(reader).bits(), old(reader).pos(), *sps, *pps,
                        nut, nri, st)
                    == Err::<int, ParseError>(e)
                &&& e != ParseError::Io
            },
        },
{
    if st % 5 == 1 {
        match read_bit_r(reader) {
            Ok(_) => {}, Err(e) => { return Err(e); },
        }
    }
    let mut num_ref_idx_l0_active_minus1: Option<u32> = None;
    if st % 5 == 0 || st % 5 == 3 || st % 5 == 1 {
        let flag = match read_bit_r(reader) {
            Ok(v) => v, Err(e) => { return Err(e); },
        };
        if flag {
            num_ref_idx_l0_active_minus1 = match read_ue(reader) {
                Ok(v) => Some(v), Err(e) => { return Err(e); },
            };
            if st % 5 == 1 {
                match read_ue(reader) {
                    Ok(_) => {}, Err(e) => { return Err(e); },
                }
            }
        }
    }
    match nut {
        NALUnitType::CodedSliceSvcExtension | NALUnitType::NAL21 => {
            return Err(ParseError::Unimplemented);
        },
        _ => {},
    }
    if pps.weighted_pred_flag && (st % 5 == 0 || st % 5 == 3)
        || (pps.weighted_bipred_idc == 1 && st % 5 == 1) {
        let n = match num_ref_idx_l0_active_minus1 {
            None => {
                return Err(ParseError::InvalidData);
            },
            Some(n) => n,
        };
        match PredWeightTable::read(reader, sps, n) {
            Ok(_) => {
                return Err(ParseError::Unimplemented);
            },
            Err(e) => {
                return Err(e);
            },
        }
    }
    read_slice_end(reader, pps, st)
}

/// Read the CABAC index, `slice_qp_delta`, the SP/SI extras and the
/// deblocking block.
#[verifier::rlimit(100)]
fn read_slice_end(reader: &mut BitReader, pps: &Pps, st: u32) -> (r: Result<(), ParseError>)
    requires old(reader).wf()
    ensures
        final(reader).wf(),
        final(reader).bits() == old(reader).bits(),
        match r {
            Ok(()) => sp_read_slice_end(old(reader).bits(), old(reader).pos(), *pps, st)
                == Ok::<int, ParseError>(final(reader).pos()),
            Err(e) => {
                &&& sp_read_slice_end(old(reader).bits(), old(reader).pos(), *pps, st)
                    == Err::<int, ParseError>(e)
                &&& e != ParseError::Io
            },
        },
{
    if pps.entropy_coding_mode_flag && st % 5 != 2 && st % 5 != 4 {
        match read_ue(reader) {
            Ok(_) => {}, Err(e) => { return Err(e); },
        }
    }
    match read_se(reader) {
        Ok(_) => {}, Err(e) => { return Err(e); },
    }
    if st % 5 == 3 || st % 5 == 4 {
        if st % 5 == 3 {
            match read_bit_r(reader) {
                Ok(_) => {}, Err(e) => { return Err(e); },
            }
        }
        match read_se(reader) {
            Ok(_) => {}, Err(e) => { return Err(e); },
        }
    }
    if pps.deblocking_filter_control_present_flag {
        let idc = match read_ue(reader) {
            Ok(v) => v, Err(e) => { return Err(e); },
        };
        if idc != 1 {
            match read_se(reader) {
                Ok(_) => {}, Err(e) => { return Err(e); },
            }
            match read_se(reader) {
                Ok(_) => {}, Err(e) => { return Err(e); },
            }
        }
    }
    Ok(())
}

impl SliceHeader {
    /// The retained raw bytes, as bits.
    pub open spec fn data_bits(&self) -> Seq<bool> {
        bytes_bits(self.data@)
    }

    /// The first bit after `frame_num` in the retained bytes.
    pub open spec fn tail_pos(&self) -> int {
        8 * self.data_offset_byte + self.data_offset_bit
    }

    /// A header fit for re-serialization: valid offsets and fields
    /// that fit their codes.
    pub open spec fn wf(&self) -> bool {
        &&& self.data_offset_bit < 8
        &&& 0 <= self.tail_pos() <= self.data_bits().len()
        &&& self.first_mb_in_slice <= 0xFFFF_FFFE
        &&& self.slice_type <= 0xFFFF_FFFE
        &&& self.pic_parameter_set_id <= 0xFFFF_FFFE
        &&& self.frame_num < 16
    }

    /// Parse a slice header against its SPS and PPS and retain the raw
    /// bytes.  A `pic_parameter_set_id` other than the given PPS's, or
    /// a PPS naming another SPS, is invalid; weight tables, the SVC
    /// extension types and picture order count type 0 are unsupported.
    ///
    /// The parsed `frame_num` fits four bits only when the SPS says so;
    /// `wf`, and so `to_bytes`, asks for exactly that.
    pub fn from_bytes(bytes: &[u8], sps: &Sps, pps: &Pps, nal_unit_type: &NALUnitType,
        nal_ref_idc: u8) -> (r: Result<Self, ParseError>)
        ensures
            match r {
                Ok(h) => {
                    &&& sp_read_full_slice(bytes@, *sps, *pps, *nal_unit_type, nal_ref_idc)
                        == Ok::<_, ParseError>((
                            (h.first_mb_in_slice, h.slice_type, h.pic_parameter_set_id,
                             h.frame_num, h.field_pic_flag, h.bottom_field_flag,
                             h.idr_pic_id, h.redundant_pic_cnt),
                            h.tail_pos()))
                    &&& h.data@ == bytes@
                    &&& h.pred_weight_table is None
                    &&& h.data_offset_bit < 8
                    &&& 0 <= h.tail_pos() <= h.data_bits().len()
                    &&& h.first_mb_in_slice <= 0xFFFF_FFFE
                    &&& h.slice_type <= 0xFFFF_FFFE
                    &&& h.pic_parameter_set_id <= 0xFFFF_FFFE
                },
                Err(e) => {
                    &&& sp_read_full_slice(bytes@, *sps, *pps, *nal_unit_type, nal_ref_idc)
                        == Err::<((u32, u32, u32, u32, bool, bool, Option<u32>,
                            Option<u32>), int), ParseError>(e)
                    &&& e != ParseError::Io
                },
            },
    {
        let mut copy2: Vec<u8> = Vec::new();
        let mut j: usize = 0;
        while j < bytes.len()
            invariant j <= bytes@.len(), copy2@ == bytes@.subrange(0, j as int),
            decreases bytes@.len() - j,
        {
            copy2.push(bytes[j]);
            proof {
                assert(bytes@.subrange(0, j as int).push(bytes@[j as int])
                    =~= bytes@.subrange(0, j + 1));
            }
            j = j + 1;
        }
        proof { assert(copy2@ =~= bytes@); }
        let mut reader = BitReader::new(copy2);
        let (fields, off) = match read_slice_head(&mut reader, sps, pps, *nal_unit_type) {
            Ok(v) => v, Err(e) => { return Err(e); },
        };
        match read_slice_rest(&mut reader, sps, pps, *nal_unit_type, nal_ref_idc,
            fields.1) {
            Ok(()) => {}, Err(e) => { return Err(e); },
        }
        let mut data: Vec<u8> = Vec::new();
        let mut i: usize = 0;
        while i < bytes.len()
            invariant i <= bytes@.len(), data@ == bytes@.subrange(0, i as int),
            decreases bytes@.len() - i,
        {
            data.push(bytes[i]);
            proof {
                assert(bytes@.subrange(0, i as int).push(bytes@[i as int])
                    =~= bytes@.subrange(0, i + 1));
            }
            i = i + 1;
        }
        proof { assert(data@ =~= bytes@); }
        Ok(SliceHeader {
            first_mb_in_slice: fields.0,
            slice_type: fields.1,
            pic_parameter_set_id: fields.2,
            frame_num: fields.3,
            field_pic_flag: fields.4,
            bottom_field_flag: fields.5,
            idr_pic_id: fields.6,
            redundant_pic_cnt: fields.7,
            pred_weight_table: None,
            data,
            data_offset_byte: off.0,
            data_offset_bit: off.1,
        })
    }

    /// The serialized bits of this header: the three `ue(v)` fields,
    /// `frame_num` as four bits, then the retained tail unchanged.
    pub open spec fn sp_bits(&self) -> Seq<bool> {
        ue_bits(self.first_mb_in_slice as nat)
            + ue_bits(self.slice_type as nat)
            + ue_bits(self.pic_parameter_set_id as nat)
            + uint_bits(self.frame_num as nat, 4)
            + self.data_bits().skip(self.tail_pos())
    }

    /// Serialize: the fields, then the retained tail, padded with zero
    /// bits to a whole byte.  `frame_num` is written as four bits.
    pub fn to_bytes(&self) -> (r: Vec<u8>)
        requires self.wf()
        ensures bytes_bits(r@) == self.sp_bits()
            + Seq::new(BitWriter::align_pad(self.sp_bits().len() as int) as nat,
                |i: int| false)
    {
        let mut writer = BitWriter::new();
        write_ue(&mut writer, self.first_mb_in_slice);
        write_ue(&mut writer, self.slice_type);
        write_ue(&mut writer, self.pic_parameter_set_id);
        proof {
            vstd::arithmetic::power2::lemma2_to64();
        }
        writer.write_bits(4, self.frame_num);
        let mut data2: Vec<u8> = Vec::new();
        let mut i: usize = 0;
        while i < self.data.len()
            invariant i <= self.data@.len(), data2@ == self.data@.subrange(0, i as int),
            decreases self.data@.len() - i,
        {
            data2.push(self.data[i]);
            proof {
                assert(self.data@.subrange(0, i as int).push(self.data@[i as int])
                    =~= self.data@.subrange(0, i + 1));
            }
            i = i + 1;
        }
        proof { assert(data2@ =~= self.data@); }
        let mut reader = BitReader::new(data2);
        reader.seek(self.data_offset_byte, self.data_offset_bit);
        let ghost head = writer.bits();
        let ghost tail_all = self.data_bits().skip(self.tail_pos());
        proof {
            assert(writer.bits() + tail_all.subrange(0, 0) =~= head);
        }
        loop
            invariant
                writer.wf(),
                reader.wf(),
                reader.bits() == self.data_bits(),
                tail_all == self.data_bits().skip(self.tail_pos()),
                0 <= self.tail_pos() <= reader.pos() <= reader.bits().len(),
                writer.bits() == head + tail_all.subrange(0, reader.pos() - self.tail_pos()),
            ensures
                writer.wf(),
                writer.bits() == head + tail_all,
            decreases reader.bits().len() - reader.pos(),
        {
            proof { reader.lemma_pos_le_len(); }
            match reader.read_bit() {
                None => {
                    proof {
                        assert(tail_all.subrange(0, tail_all.len() as int) =~= tail_all);
                    }
                    break;
                },
                Some(b) => {
                    let ghost w0 = writer.bits();
                    let ghost done = reader.pos() - 1 - self.tail_pos();
                    writer.write_bit(b);
                    proof {
                        assert(tail_all[done] == b);
                        assert(tail_all.subrange(0, done).push(b)
                            =~= tail_all.subrange(0, done + 1));
                        assert(w0 + seq![b]
                            =~= head + tail_all.subrange(0, done + 1));
                    }
                },
            }
        }
        writer.byte_align();
        proof {
            assert(head + tail_all =~= self.sp_bits());
        }
        writer.take_bytes()
    }
}

} // verus!
