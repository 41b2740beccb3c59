//! The picture parameter set: entropy mode, reference index defaults,
//! weighted prediction flags, QP offsets and the deblocking and
//! redundancy flags.  Slice groups and scaling matrices are
//! unsupported.

use vstd::prelude::*;
use crate::bitio::{BitReader, BitWriter, uint_bits};
use crate::parse_h264::{ParseError, sp_ue, sp_ue_u8, sp_se, sp_read_bit, sp_read_bits,
    sp_rbsp_trailing, ue_bits, sp_signed_to_golomb, read_ue, read_ue_u8, read_se,
    read_bit_r, read_u8_bits, read_rbsp_trailing_bits, more_rbsp_data, write_ue, write_se,
    write_rbsp_trailing_bits};

verus! {

/// The optional block at the end of a PPS: the 8x8-transform flag and
/// the second chroma QP offset.  A scaling matrix is unsupported.
#[derive(Clone, Copy, Debug)]
pub struct PpsMoreData {
    pub transform_8x8_mode_flag: bool,
    pub second_chroma_qp_index_offset: i8,
}

#[derive(Clone, Copy, Debug)]
pub struct Pps {
    pub pic_parameter_set_id: u32,
    pub seq_parameter_set_id: u32,
    pub entropy_coding_mode_flag: bool,
    pub bottom_field_pic_order_in_frame_present_flag: bool,
    pub num_ref_idx_l0_default_active_minus1: u8,
    pub num_ref_idx_l1_default_active_minus1: u8,
    pub weighted_pred_flag: bool,
    pub weighted_bipred_idc: u8,
    pub pic_init_qp_minus26: i8,
    pub pic_init_qs_minus26: i8,
    pub chroma_qp_index_offset: i8,
    pub deblocking_filter_control_present_flag: bool,
    pub constrained_intra_pred_flag: bool,
    pub redundant_pic_cnt_present_flag: bool,
    pub pps_more_data: Option<PpsMoreData>,
}

/// `se(v)` restricted to values that fit a signed byte.
pub open spec fn sp_se_i8(bits: Seq<bool>, pos: int) -> Result<(int, int), ParseError> {
    match sp_se(bits, pos) {
        Ok((v, p)) => if -128 <= v <= 127 { Ok((v, p)) } else { Err(ParseError::InvalidData) },
        Err(e) => Err(e),
    }
}

/// Read an `se(v)` value that must fit a signed byte.
pub fn read_se_i8(reader: &mut BitReader) -> (r: Result<i8, ParseError>)
    requires old(reader).wf()
    ensures
        final(reader).wf(),
        final(reader).bits() == old(reader).bits(),
        match r {
            Ok(v) => sp_se_i8(old(reader).bits(), old(reader).pos())
                == Ok::<(int, int), ParseError>((v as int, final(reader).pos())),
            Err(e) => {
                &&& sp_se_i8(old(reader).bits(), old(reader).pos())
                    == Err::<(int, int), ParseError>(e)
                &&& e != ParseError::Io
            },
        },
{
    match read_se(reader) {
        Ok(v) => {
            if v < -128 || v > 127 {
                Err(ParseError::InvalidData)
            } else {
                Ok(v as i8)
            }
        },
        Err(e) => Err(e),
    }
}

/// Whether a one bit follows anywhere strictly after `pos`: the test
/// for the optional final PPS block.
pub open spec fn sp_more_data(bits: Seq<bool>, pos: int) -> bool {
    exists|i: int| pos < i < bits.len() && bits[i]
}

/// What parsing the optional final PPS block yields.
pub open spec fn sp_read_pps_more(bits: Seq<bool>, pos: int)
    -> Result<(PpsMoreData, int), ParseError>
{
    match sp_read_bit(bits, pos) {
        Err(e) => Err(e),
        Ok((t8, p1)) => match sp_read_bit(bits, p1) {
            Err(e) => Err(e),
            Ok((scaling, p2)) => if scaling {
                Err(ParseError::Unimplemented)
            } else {
                match sp_se_i8(bits, p2) {
                    Err(e) => Err(e),
                    Ok((qp2, p3)) => Ok((PpsMoreData {
                        transform_8x8_mode_flag: t8,
                        second_chroma_qp_index_offset: qp2 as i8,
                    }, p3)),
                }
            },
        },
    }
}

/// What parsing a whole PPS RBSP yields, trailing bits included.
pub open spec fn sp_read_pps(bits: Seq<bool>, pos: int) -> Result<(Pps, int), ParseError> {
    match sp_ue(bits, pos) {
        Err(e) => Err(e),
        Ok((pps_id, p1)) => match sp_ue(bits, p1) {
            Err(e) => Err(e),
            Ok((sps_id, p2)) => match sp_read_bit(bits, p2) {
                Err(e) => Err(e),
                Ok((entropy, p3)) => match sp_read_bit(bits, p3) {
                    Err(e) => Err(e),
                    Ok((bottom, p4)) => match sp_ue(bits, p4) {
                        Err(e) => Err(e),
                        Ok((groups, p5)) => if groups != 0 {
                            Err(ParseError::Unimplemented)
                        } else {
                            sp_read_pps_tail(bits, p5, pps_id as u32, sps_id as u32,
                                entropy, bottom)
                        },
                    },
                },
            },
        },
    }
}

/// The PPS fields after the slice-group count.
pub open spec fn sp_read_pps_tail(bits: Seq<bool>, pos: int, pps_id: u32, sps_id: u32,
    entropy: bool, bottom: bool) -> Result<(Pps, int), ParseError>
{
    match sp_ue_u8(bits, pos) {
        Err(e) => Err(e),
        Ok((l0, p1)) => match sp_ue_u8(bits, p1) {
            Err(e) => Err(e),
            Ok((l1, p2)) => match sp_read_bit(bits, p2) {
                Err(e) => Err(e),
                Ok((wpred, p3)) => match sp_read_bits(bits, p3, 2) {
                    Err(e) => Err(e),
                    Ok((wbidc, p4)) => match sp_se_i8(bits, p4) {
                        Err(e) => Err(e),
                        Ok((qp, p5)) => match sp_se_i8(bits, p5) {
                            Err(e) => Err(e),
                            Ok((qs, p6)) => match sp_se_i8(bits, p6) {
                                Err(e) => Err(e),
                                Ok((cqp, p7)) => match sp_read_bit(bits, p7) {
                                    Err(e) => Err(e),
                                    Ok((deblock, p8)) => match sp_read_bit(bits, p8) {
                                        Err(e) => Err(e),
                                        Ok((cintra, p9)) => match sp_read_bit(bits, p9) {
                                            Err(e) => Err(e),
                                            Ok((redund, p10)) => {
                                                let more_step: Result<(Option<PpsMoreData>,
                                                    int), ParseError> =
                                                    if sp_more_data(bits, p10) {
                                                        match sp_read_pps_more(bits, p10) {
                                                            Err(e) => Err(e),
                                                            Ok((m, p11)) =>
                                                                Ok((Some(m), p11)),
                                                        }
                                                    } else {
                                                        Ok((None, p10))
                                                    };
                                                match more_step {
                                                    Err(e) => Err(e),
                                                    Ok((more, p11)) =>
                                                        match sp_rbsp_trailing(bits, p11) {
                                                            Err(e) => Err(e),
                                                            Ok(p12) => Ok((Pps {
                                                                pic_parameter_set_id: pps_id,
                                                                seq_parameter_set_id: sps_id,
                                                                entropy_coding_mode_flag:
                                                                    entropy,
                                                                bottom_field_pic_order_in_frame_present_flag:
                                                                    bottom,
                                                                num_ref_idx_l0_default_active_minus1:
                                                                    l0 as u8,
                                                                num_ref_idx_l1_default_active_minus1:
                                                                    l1 as u8,
                                                                weighted_pred_flag: wpred,
                                                                weighted_bipred_idc:
                                                                    wbidc as u8,
                                                                pic_init_qp_minus26:
                                                                    qp as i8,
                                                                pic_init_qs_minus26:
                                                                    qs as i8,
                                                                chroma_qp_index_offset:
                                                                    cqp as i8,
                                                                deblocking_filter_control_present_flag:
                                                                    deblock,
                                                                constrained_intra_pred_flag:
                                                                    cintra,
                                                                redundant_pic_cnt_present_flag:
                                                                    redund,
                                                                pps_more_data: more,
                                                            }, p12)),
                                                        },
                                                }
                                            },
                                        },
                                    },
                                },
                            },
                        },
                    },
                },
            },
        },
    }
}

impl PpsMoreData {
    /// Parse the optional final PPS block.
    pub fn read(reader: &mut BitReader) -> (r: Result<Self, ParseError>)
        requires old(reader).wf()
        ensures
            final(reader).wf(),
            final(reader).bits() == old(reader).bits(),
            match r {
                Ok(v) => sp_read_pps_more(old(reader).bits(), old(reader).pos())
                    == Ok::<(PpsMoreData, int), ParseError>((v, final(reader).pos())),
                Err(e) => {
                    &&& sp_read_pps_more(old(reader).bits(), old(reader).pos())
                        == Err::<(PpsMoreData, int), ParseError>(e)
                    &&& e != ParseError::Io
                },
            },
    {
        let transform_8x8_mode_flag = match read_bit_r(reader) {
            Ok(v) => v, Err(e) => { return Err(e); },
        };
        let scaling = match read_bit_r(reader) {
            Ok(v) => v, Err(e) => { return Err(e); },
        };
        if scaling {
            return Err(ParseError::Unimplemented);
        }
        let second_chroma_qp_index_offset = match read_se_i8(reader) {
            Ok(v) => v, Err(e) => { return Err(e); },
        };
        Ok(PpsMoreData { transform_8x8_mode_flag, second_chroma_qp_index_offset })
    }
}

/// Read the PPS fields after the slice-group count.
#[verifier::rlimit(100)]
fn read_pps_tail(reader: &mut BitReader, pps_id: u32, sps_id: u32, entropy: bool,
    bottom: bool) -> (r: Result<Pps, ParseError>)
    requires old(reader).wf()
    ensures
        final(reader).wf(),
        final(reader).bits() == old(reader).bits(),
        match r {
            Ok(v) => sp_read_pps_tail(old(reader).bits(), old(reader).pos(), pps_id,
                    sps_id, entropy, bottom)
                == Ok::<(Pps, int), ParseError>((v, final(reader).pos())),
            Err(e) => {
                &&& sp_read_pps_tail(old(reader).bits(), old(reader).pos(), pps_id,
                        sps_id, entropy, bottom)
                    == Err::<(Pps, int), ParseError>(e)
                &&& e != ParseError::Io
            },
        },
{
    let num_ref_idx_l0_default_active_minus1 = match read_ue_u8(reader) {
        Ok(v) => v, Err(e) => { return Err(e); },
    };
    let num_ref_idx_l1_default_active_minus1 = match read_ue_u8(reader) {
        Ok(v) => v, Err(e) => { return Err(e); },
    };
    let weighted_pred_flag = match read_bit_r(reader) {
        Ok(v) => v, Err(e) => { return Err(e); },
    };
    let weighted_bipred_idc = match read_u8_bits(reader, 2) {
        Ok(v) => v, Err(e) => { return Err(e); },
    };
    let pic_init_qp_minus26 = match read_se_i8(reader) {
        Ok(v) => v, Err(e) => { return Err(e); },
    };
    let pic_init_qs_minus26 = match read_se_i8(reader) {
        Ok(v) => v, Err(e) => { return Err(e); },
    };
    let chroma_qp_index_offset = match read_se_i8(reader) {
        Ok(v) => v, Err(e) => { return Err(e); },
    };
    let deblocking_filter_control_present_flag = match read_bit_r(reader) {
        Ok(v) => v, Err(e) => { return Err(e); },
    };
    let constrained_intra_pred_flag = match read_bit_r(reader) {
        Ok(v) => v, Err(e) => { return Err(e); },
    };
    let ghost p_before_redund = reader.pos();
    let redundant_pic_cnt_present_flag = match read_bit_r(reader) {
        Ok(v) => v, Err(e) => { return Err(e); },
    };
    let more = more_rbsp_data(reader);
    let pps_more_data = if more {
        match PpsMoreData::read(reader) {
            Ok(v) => Some(v), Err(e) => { return Err(e); },
        }
    } else {
        None
    };
    match read_rbsp_trailing_bits(reader) {
        Ok(()) => {},
        Err(e) => { return Err(e); },
    }
    Ok(Pps {
        pic_parameter_set_id: pps_id,
        seq_parameter_set_id: sps_id,
        entropy_coding_mode_flag: entropy,
        bottom_field_pic_order_in_frame_present_flag: bottom,
        num_ref_idx_l0_default_active_minus1,
        num_ref_idx_l1_default_active_minus1,
        weighted_pred_flag,
        weighted_bipred_idc,
        pic_init_qp_minus26,
        pic_init_qs_minus26,
        chroma_qp_index_offset,
        deblocking_filter_control_present_flag,
        constrained_intra_pred_flag,
        redundant_pic_cnt_present_flag,
        pps_more_data,
    })
}

impl Pps {
    /// Parse a whole PPS RBSP, trailing bits included.  A nonzero
    /// slice-group count is unsupported.
    pub fn read(reader: &mut BitReader) -> (r: Result<Self, ParseError>)
        requires old(reader).wf()
        ensures
            final(reader).wf(),
            final(reader).bits() == old(reader).bits(),
            match r {
                Ok(v) => sp_read_pps(old(reader).bits(), old(reader).pos())
                    == Ok::<(Pps, int), ParseError>((v, final(reader).pos())),
                Err(e) => {
                    &&& sp_read_pps(old(reader).bits(), old(reader).pos())
                        == Err::<(Pps, int), ParseError>(e)
                    &&& e != ParseError::Io
                },
            },
    {
        let pic_parameter_set_id = match read_ue(reader) {
            Ok(v) => v, Err(e) => { return Err(e); },
        };
        let seq_parameter_set_id = match read_ue(reader) {
            Ok(v) => v, Err(e) => { return Err(e); },
        };
        let entropy_coding_mode_flag = match read_bit_r(reader) {
            Ok(v) => v, Err(e) => { return Err(e); },
        };
        let bottom_field_pic_order_in_frame_present_flag = match read_bit_r(reader) {
            Ok(v) => v, Err(e) => { return Err(e); },
        };
        let groups = match read_ue(reader) {
            Ok(v) => v, Err(e) => { return Err(e); },
        };
        if groups != 0 {
            return Err(ParseError::Unimplemented);
        }
        read_pps_tail(reader, pic_parameter_set_id, seq_parameter_set_id,
            entropy_coding_mode_flag, bottom_field_pic_order_in_frame_present_flag)
    }

    /// The serialized bits of a PPS, without the trailing bits: a
    /// zero slice-group count is written.
    pub open spec fn sp_body_bits(&self) -> Seq<bool> {
        ue_bits(self.pic_parameter_set_id as nat)
        + ue_bits(self.seq_parameter_set_id as nat)
        + seq![self.entropy_coding_mode_flag,
            self.bottom_field_pic_order_in_frame_present_flag]
        + ue_bits(0)
        + ue_bits(self.num_ref_idx_l0_default_active_minus1 as nat)
        + ue_bits(self.num_ref_idx_l1_default_active_minus1 as nat)
        + seq![self.weighted_pred_flag]
        + uint_bits(self.weighted_bipred_idc as nat, 2)
        + ue_bits(sp_signed_to_golomb(self.pic_init_qp_minus26 as int))
        + ue_bits(sp_signed_to_golomb(self.pic_init_qs_minus26 as int))
        + ue_bits(sp_signed_to_golomb(self.chroma_qp_index_offset as int))
        + seq![self.deblocking_filter_control_present_flag,
            self.constrained_intra_pred_flag,
            self.redundant_pic_cnt_present_flag]
        + (match self.pps_more_data {
            None => Seq::<bool>::empty(),
            Some(m) => seq![m.transform_8x8_mode_flag, false]
                + ue_bits(sp_signed_to_golomb(m.second_chroma_qp_index_offset as int)),
        })
    }

    /// The serialized bits of a PPS written from a byte boundary:
    /// the body, then the RBSP trailing bits.
    pub open spec fn sp_bits(&self) -> Seq<bool> {
        let body = self.sp_body_bits();
        body + seq![true]
            + Seq::new(BitWriter::align_pad(body.len() as int + 1) as nat, |i: int| false)
    }

    /// Every `ue(v)`-coded field fits its code.
    pub open spec fn sp_writable(&self) -> bool {
        &&& self.pic_parameter_set_id <= 0xFFFF_FFFE
        &&& self.seq_parameter_set_id <= 0xFFFF_FFFE
        &&& self.weighted_bipred_idc < 4
    }

    /// Serialize a whole PPS RBSP, trailing bits included; the writer
    /// must stand at a byte boundary.
    #[verifier::rlimit(100)]
    pub fn write(&self, writer: &mut BitWriter)
        requires
            old(writer).wf(),
            old(writer).bits().len() % 8 == 0,
            self.sp_writable(),
        ensures final(writer).wf(),
            final(writer).bits() == old(writer).bits() + self.sp_bits()
    {
        let ghost before = writer.bits();
        let ghost mut chunk: Seq<bool> = Seq::empty();
        proof { vstd::arithmetic::power2::lemma2_to64(); }
        write_ue(writer, self.pic_parameter_set_id);
        proof { chunk = ue_bits(self.pic_parameter_set_id as nat); }
        write_ue(writer, self.seq_parameter_set_id);
        proof {
            crate::bitio::lemma_seq_assoc(before, chunk,
                ue_bits(self.seq_parameter_set_id as nat));
            chunk = chunk + ue_bits(self.seq_parameter_set_id as nat);
        }
        writer.write_bit(self.entropy_coding_mode_flag);
        writer.write_bit(self.bottom_field_pic_order_in_frame_present_flag);
        proof {
            crate::bitio::lemma_seq_pair(before + chunk, self.entropy_coding_mode_flag,
                self.bottom_field_pic_order_in_frame_present_flag);
            crate::bitio::lemma_seq_assoc(before, chunk,
                seq![self.entropy_coding_mode_flag,
                    self.bottom_field_pic_order_in_frame_present_flag]);
            chunk = chunk + seq![self.entropy_coding_mode_flag,
                self.bottom_field_pic_order_in_frame_present_flag];
        }
        write_ue(writer, 0);
        proof {
            crate::bitio::lemma_seq_assoc(before, chunk, ue_bits(0));
            chunk = chunk + ue_bits(0);
        }
        write_ue(writer, self.num_ref_idx_l0_default_active_minus1 as u32);
        proof {
            crate::bitio::lemma_seq_assoc(before, chunk,
                ue_bits(self.num_ref_idx_l0_default_active_minus1 as nat));
            chunk = chunk + ue_bits(self.num_ref_idx_l0_default_active_minus1 as nat);
        }
        write_ue(writer, self.num_ref_idx_l1_default_active_minus1 as u32);
        proof {
            crate::bitio::lemma_seq_assoc(before, chunk,
                ue_bits(self.num_ref_idx_l1_default_active_minus1 as nat));
            chunk = chunk + ue_bits(self.num_ref_idx_l1_default_active_minus1 as nat);
        }
        writer.write_bit(self.weighted_pred_flag);
        proof {
            crate::bitio::lemma_seq_assoc(before, chunk, seq![self.weighted_pred_flag]);
            chunk = chunk + seq![self.weighted_pred_flag];
        }
        writer.write_bits(2, self.weighted_bipred_idc as u32);
        proof {
            crate::bitio::lemma_seq_assoc(before, chunk,
                uint_bits(self.weighted_bipred_idc as nat, 2));
            chunk = chunk + uint_bits(self.weighted_bipred_idc as nat, 2);
        }
        write_se(writer, self.pic_init_qp_minus26 as i32);
        proof {
            crate::bitio::lemma_seq_assoc(before, chunk,
                ue_bits(sp_signed_to_golomb(self.pic_init_qp_minus26 as int)));
            chunk = chunk + ue_bits(sp_signed_to_golomb(self.pic_init_qp_minus26 as int));
        }
        write_se(writer, self.pic_init_qs_minus26 as i32);
        proof {
            crate::bitio::lemma_seq_assoc(before, chunk,
                ue_bits(sp_signed_to_golomb(self.pic_init_qs_minus26 as int)));
            chunk = chunk + ue_bits(sp_signed_to_golomb(self.pic_init_qs_minus26 as int));
        }
        write_se(writer, self.chroma_qp_index_offset as i32);
        proof {
            crate::bitio::lemma_seq_assoc(before, chunk,
                ue_bits(sp_signed_to_golomb(self.chroma_qp_index_offset as int)));
            chunk = chunk + ue_bits(sp_signed_to_golomb(self.chroma_qp_index_offset as int));
        }
        writer.write_bit(self.deblocking_filter_control_present_flag);
        writer.write_bit(self.constrained_intra_pred_flag);
        writer.write_bit(self.redundant_pic_cnt_present_flag);
        proof {
            crate::bitio::lemma_seq_triple(before + chunk,
                self.deblocking_filter_control_present_flag,
                self.constrained_intra_pred_flag,
                self.redundant_pic_cnt_present_flag);
            crate::bitio::lemma_seq_assoc(before, chunk,
                seq![self.deblocking_filter_control_present_flag,
                    self.constrained_intra_pred_flag,
                    self.redundant_pic_cnt_present_flag]);
            chunk = chunk + seq![self.deblocking_filter_control_present_flag,
                self.constrained_intra_pred_flag,
                self.redundant_pic_cnt_present_flag];
        }
        match &self.pps_more_data {
            None => {
                proof {
                    crate::bitio::lemma_seq_add_empty(chunk);
                    chunk = chunk + Seq::<bool>::empty();
                }
            },
            Some(m) => {
                writer.write_bit(m.transform_8x8_mode_flag);
                writer.write_bit(false);
                write_se(writer, m.second_chroma_qp_index_offset as i32);
                proof {
                    let base = before + chunk;
                    crate::bitio::lemma_seq_pair(base, m.transform_8x8_mode_flag, false);
                    crate::bitio::lemma_seq_assoc(base,
                        seq![m.transform_8x8_mode_flag, false],
                        ue_bits(sp_signed_to_golomb(m.second_chroma_qp_index_offset as int)));
                    crate::bitio::lemma_seq_assoc(before, chunk,
                        seq![m.transform_8x8_mode_flag, false]
                        + ue_bits(sp_signed_to_golomb(
                            m.second_chroma_qp_index_offset as int)));
                    chunk = chunk + (seq![m.transform_8x8_mode_flag, false]
                        + ue_bits(sp_signed_to_golomb(
                            m.second_chroma_qp_index_offset as int)));
                }
            },
        }
        proof {
            assert(writer.bits() == before + chunk);
            assert(chunk == self.sp_body_bits());
        }
        write_rbsp_trailing_bits(writer);
        proof {
            let body = self.sp_body_bits();
            let pad = Seq::new(
                BitWriter::align_pad(body.len() as int + 1) as nat, |i: int| false);
            vstd::arithmetic::div_mod::lemma_mod_multiples_vanish(
                before.len() as int / 8, body.len() as int + 1, 8);
            vstd::arithmetic::div_mod::lemma_fundamental_div_mod(before.len() as int, 8);
            assert((before.len() + body.len() + 1) % 8 == (body.len() + 1) % 8);
            assert(writer.bits() == ((before + body) + seq![true]) + pad);
            crate::bitio::lemma_seq_assoc(before + body, seq![true], pad);
            crate::bitio::lemma_seq_assoc(before, body, seq![true] + pad);
        }
    }
}

} // verus!
