//! The sequence parameter set: every field needed to decide whether
//! two streams are interchangeable and to know the bit width of
//! `frame_num`.  Scaling lists, `pic_order_cnt_type` 1, HRD
//! parameters and the extended sample aspect ratio are unsupported.

use vstd::prelude::*;
use crate::bitio::{BitReader, BitWriter, bits_val, uint_bits};
use crate::parse_h264::{ParseError, sp_ue, sp_ue_u8, sp_read_bit, sp_read_bits,
    sp_rbsp_trailing, ue_bits, read_ue, read_ue_u8, read_bit_r, read_bits_r, read_u8_bits,
    read_rbsp_trailing_bits, write_ue, write_rbsp_trailing_bits};

verus! {

/// The picture order count mode: type 0 with its `lsb` width, or
/// type 2.  Type 1 is unsupported.
#[derive(Clone, Copy, Debug)]
pub enum PicOrderCntType {
    Type0(u8),
    Type2,
}

#[derive(Clone, Copy, Debug)]
pub struct ColourDescription {
    pub colour_primaries: u8,
    pub transfer_characteristics: u8,
    pub matrix_coefficients: u8,
}

#[derive(Clone, Copy, Debug)]
pub struct VideoSignalType {
    pub video_format: u8,
    pub video_full_range_flag: bool,
    pub colour_description: Option<ColourDescription>,
}

#[derive(Clone, Copy, Debug)]
pub struct ChromaLocInfo {
    pub chroma_sample_loc_type_top_field: u32,
    pub chroma_sample_loc_type_bottom_field: u32,
}

#[derive(Clone, Copy, Debug)]
pub struct TimingInfo {
    pub num_units_in_tick: u32,
    pub time_scale: u32,
    pub fixed_frame_rate_flag: bool,
}

#[derive(Clone, Copy, Debug)]
pub struct BitstreamRestriction {
    pub motion_vectors_over_pic_boundaries_flag: bool,
    pub max_bytes_per_pic_denom: u32,
    pub max_bits_per_mb_denom: u32,
    pub log2_max_mv_length_horizontal: u32,
    pub log2_max_mv_length_vertical: u32,
    pub max_num_reorder_frames: u32,
    pub max_dec_frame_buffering: u32,
}

#[derive(Clone, Copy, Debug)]
pub struct VuiParameters {
    pub aspect_ratio_idc: Option<u8>,
    pub overscan_appropriate_flag: Option<bool>,
    pub video_signal_type: Option<VideoSignalType>,
    pub chroma_loc_info: Option<ChromaLocInfo>,
    pub timing_info: Option<TimingInfo>,
    pub pic_struct_present_flag: bool,
    pub bitstream_restriction: Option<BitstreamRestriction>,
}

#[derive(Clone, Copy, Debug)]
pub struct Sps {
    pub profile_idc: u8,
    pub constraint_set0_flag: bool,
    pub constraint_set1_flag: bool,
    pub constraint_set2_flag: bool,
    pub constraint_set3_flag: bool,
    pub constraint_set4_flag: bool,
    pub constraint_set5_flag: bool,
    pub level_idc: u8,
    pub seq_parameter_set_id: u8,
    pub chroma_format_idc: u8,
    pub separate_colour_plane_flag: bool,
    pub bit_depth_luma_minus8: u8,
    pub bit_depth_chroma_minus8: u8,
    pub qpprime_y_zero_transform_bypass_flag: bool,
    pub log2_max_frame_num_minus4: u8,
    pub pic_order_cnt_type: PicOrderCntType,
    pub max_num_ref_frames: u32,
    pub gaps_in_frame_num_value_allowed_flag: bool,
    pub pic_width_in_mbs_minus1: u32,
    pub pic_height_in_map_units_minus1: u32,
    pub frame_mbs_only_flag: bool,
    pub mb_adaptive_frame_field_flag: bool,
    pub direct_8x8_inference_flag: bool,
    pub frame_crop_offset: Option<(u32, u32, u32, u32)>,
    pub vui_parameters: Option<VuiParameters>,
}

/// The profiles whose SPS carries the chroma-format block.
pub open spec fn sp_high_profile(p: u8) -> bool {
    p == 100 || p == 110 || p == 122 || p == 244 || p == 44 || p == 83 || p == 86
        || p == 118 || p == 128 || p == 138 || p == 139 || p == 134 || p == 135
}

pub fn is_high_profile(p: u8) -> (r: bool)
    ensures r == sp_high_profile(p)
{
    p == 100 || p == 110 || p == 122 || p == 244 || p == 44 || p == 83 || p == 86
        || p == 118 || p == 128 || p == 138 || p == 139 || p == 134 || p == 135
}

/// What parsing the chroma-format block yields for a high profile:
/// `(chroma_format_idc, separate_colour_plane_flag, bit_depth_luma,
/// bit_depth_chroma, qpprime)`; for other profiles, the defaults with
/// no bits consumed.  A set `seq_scaling_matrix_present_flag` is
/// unsupported.
pub open spec fn sp_read_profile_extras(bits: Seq<bool>, pos: int, profile: u8)
    -> Result<((u8, bool, u8, u8, bool), int), ParseError>
{
    if !sp_high_profile(profile) {
        Ok(((1u8, false, 0u8, 0u8, false), pos))
    } else {
        match sp_ue_u8(bits, pos) {
            Err(e) => Err(e),
            Ok((chroma, p1)) => {
                let sep_step = if chroma == 3 { sp_read_bit(bits, p1) } else { Ok((false, p1)) };
                match sep_step {
                    Err(e) => Err(e),
                    Ok((sep, p2)) => match sp_ue_u8(bits, p2) {
                        Err(e) => Err(e),
                        Ok((luma, p3)) => match sp_ue_u8(bits, p3) {
                            Err(e) => Err(e),
                            Ok((chroma_d, p4)) => match sp_read_bit(bits, p4) {
                                Err(e) => Err(e),
                                Ok((qp, p5)) => match sp_read_bit(bits, p5) {
                                    Err(e) => Err(e),
                                    Ok((scaling, p6)) => if scaling {
                                        Err(ParseError::Unimplemented)
                                    } else {
                                        Ok(((chroma as u8, sep, luma as u8, chroma_d as u8, qp),
                                            p6))
                                    },
                                },
                            },
                        },
                    },
                }
            },
        }
    }
}

/// What parsing the picture order count block yields.
pub open spec fn sp_read_poc(bits: Seq<bool>, pos: int)
    -> Result<(PicOrderCntType, int), ParseError>
{
    match sp_ue(bits, pos) {
        Err(e) => Err(e),
        Ok((t, p1)) => if t == 0 {
            match sp_ue_u8(bits, p1) {
                Err(e) => Err(e),
                Ok((lsb, p2)) => Ok((PicOrderCntType::Type0(lsb as u8), p2)),
            }
        } else if t == 1 {
            Err(ParseError::Unimplemented)
        } else if t == 2 {
            Ok((PicOrderCntType::Type2, p1))
        } else {
            Err(ParseError::InvalidData)
        },
    }
}

/// What parsing the frame cropping block yields.
pub open spec fn sp_read_crop(bits: Seq<bool>, pos: int)
    -> Result<(Option<(u32, u32, u32, u32)>, int), ParseError>
{
    match sp_read_bit(bits, pos) {
        Err(e) => Err(e),
        Ok((present, p0)) => if !present {
            Ok((None, p0))
        } else {
            match sp_ue(bits, p0) {
                Err(e) => Err(e),
                Ok((l, p1)) => match sp_ue(bits, p1) {
                    Err(e) => Err(e),
                    Ok((r, p2)) => match sp_ue(bits, p2) {
                        Err(e) => Err(e),
                        Ok((t, p3)) => match sp_ue(bits, p3) {
                            Err(e) => Err(e),
                            Ok((b, p4)) => Ok((
                                Some((l as u32, r as u32, t as u32, b as u32)), p4)),
                        },
                    },
                },
            }
        },
    }
}

pub open spec fn sp_read_colour_description(bits: Seq<bool>, pos: int)
    -> Result<(ColourDescription, int), ParseError>
{
    match sp_read_bits(bits, pos, 8) {
        Err(e) => Err(e),
        Ok((cp, p1)) => match sp_read_bits(bits, p1, 8) {
            Err(e) => Err(e),
            Ok((tc, p2)) => match sp_read_bits(bits, p2, 8) {
                Err(e) => Err(e),
                Ok((mc, p3)) => Ok((ColourDescription {
                    colour_primaries: cp as u8,
                    transfer_characteristics: tc as u8,
                    matrix_coefficients: mc as u8,
                }, p3)),
            },
        },
    }
}

pub open spec fn sp_read_video_signal_type(bits: Seq<bool>, pos: int)
    -> Result<(VideoSignalType, int), ParseError>
{
    match sp_read_bits(bits, pos, 3) {
        Err(e) => Err(e),
        Ok((vf, p1)) => match sp_read_bit(bits, p1) {
            Err(e) => Err(e),
            Ok((full, p2)) => match sp_read_bit(bits, p2) {
                Err(e) => Err(e),
                Ok((has_cd, p3)) => if has_cd {
                    match sp_read_colour_description(bits, p3) {
                        Err(e) => Err(e),
                        Ok((cd, p4)) => Ok((VideoSignalType {
                            video_format: vf as u8,
                            video_full_range_flag: full,
                            colour_description: Some(cd),
                        }, p4)),
                    }
                } else {
                    Ok((VideoSignalType {
                        video_format: vf as u8,
                        video_full_range_flag: full,
                        colour_description: None,
                    }, p3))
                },
            },
        },
    }
}

pub open spec fn sp_read_chroma_loc(bits: Seq<bool>, pos: int)
    -> Result<(ChromaLocInfo, int), ParseError>
{
    match sp_ue(bits, pos) {
        Err(e) => Err(e),
        Ok((top, p1)) => match sp_ue(bits, p1) {
            Err(e) => Err(e),
            Ok((bot, p2)) => Ok((ChromaLocInfo {
                chroma_sample_loc_type_top_field: top as u32,
                chroma_sample_loc_type_bottom_field: bot as u32,
            }, p2)),
        },
    }
}

pub open spec fn sp_read_timing(bits: Seq<bool>, pos: int)
    -> Result<(TimingInfo, int), ParseError>
{
    match sp_read_bits(bits, pos, 32) {
        Err(e) => Err(e),
        Ok((nu, p1)) => match sp_read_bits(bits, p1, 32) {
            Err(e) => Err(e),
            Ok((ts, p2)) => match sp_read_bit(bits, p2) {
                Err(e) => Err(e),
                Ok((fixed, p3)) => Ok((TimingInfo {
                    num_units_in_tick: nu as u32,
                    time_scale: ts as u32,
                    fixed_frame_rate_flag: fixed,
                }, p3)),
            },
        },
    }
}

pub open spec fn sp_read_bitstream_restriction(bits: Seq<bool>, pos: int)
    -> Result<(BitstreamRestriction, int), ParseError>
{
    match sp_read_bit(bits, pos) {
        Err(e) => Err(e),
        Ok((mv, p1)) => match sp_ue(bits, p1) {
            Err(e) => Err(e),
            Ok((mbpd, p2)) => match sp_ue(bits, p2) {
                Err(e) => Err(e),
                Ok((mbmd, p3)) => match sp_ue(bits, p3) {
                    Err(e) => Err(e),
                    Ok((mvh, p4)) => match sp_ue(bits, p4) {
                        Err(e) => Err(e),
                        Ok((mvv, p5)) => match sp_ue(bits, p5) {
                            Err(e) => Err(e),
                            Ok((reorder, p6)) => match sp_ue(bits, p6) {
                                Err(e) => Err(e),
                                Ok((dec, p7)) => Ok((BitstreamRestriction {
                                    motion_vectors_over_pic_boundaries_flag: mv,
                                    max_bytes_per_pic_denom: mbpd as u32,
                                    max_bits_per_mb_denom: mbmd as u32,
                                    log2_max_mv_length_horizontal: mvh as u32,
                                    log2_max_mv_length_vertical: mvv as u32,
                                    max_num_reorder_frames: reorder as u32,
                                    max_dec_frame_buffering: dec as u32,
                                }, p7)),
                            },
                        },
                    },
                },
            },
        },
    }
}

/// What parsing the VUI parameters yields.  The extended sample
/// aspect ratio and HRD parameters are unsupported.
pub open spec fn sp_read_vui(bits: Seq<bool>, pos: int)
    -> Result<(VuiParameters, int), ParseError>
{
    match sp_read_bit(bits, pos) {
        Err(e) => Err(e),
        Ok((has_aspect, p0)) => {
            let aspect_step: Result<(Option<u8>, int), ParseError> = if has_aspect {
                match sp_read_bits(bits, p0, 8) {
                    Err(e) => Err(e),
                    Ok((idc, p1)) => if idc == 255 {
                        Err(ParseError::Unimplemented)
                    } else {
                        Ok((Some(idc as u8), p1))
                    },
                }
            } else {
                Ok((None, p0))
            };
            match aspect_step {
                Err(e) => Err(e),
                Ok((aspect, p1)) => match sp_read_bit(bits, p1) {
                    Err(e) => Err(e),
                    Ok((has_over, p2)) => {
                        let over_step: Result<(Option<bool>, int), ParseError> = if has_over {
                            match sp_read_bit(bits, p2) {
                                Err(e) => Err(e),
                                Ok((v, p3)) => Ok((Some(v), p3)),
                            }
                        } else {
                            Ok((None, p2))
                        };
                        match over_step {
                            Err(e) => Err(e),
                            Ok((over, p3)) => sp_read_vui_tail(bits, p3, aspect, over),
                        }
                    },
                },
            }
        },
    }
}

/// The VUI fields after the overscan flag.
pub open spec fn sp_read_vui_tail(bits: Seq<bool>, pos: int, aspect: Option<u8>,
    over: Option<bool>) -> Result<(VuiParameters, int), ParseError>
{
    match sp_read_bit(bits, pos) {
        Err(e) => Err(e),
        Ok((has_vst, p0)) => {
            let vst_step: Result<(Option<VideoSignalType>, int), ParseError> = if has_vst {
                match sp_read_video_signal_type(bits, p0) {
                    Err(e) => Err(e),
                    Ok((v, p1)) => Ok((Some(v), p1)),
                }
            } else {
                Ok((None, p0))
            };
            match vst_step {
                Err(e) => Err(e),
                Ok((vst, p1)) => match sp_read_bit(bits, p1) {
                    Err(e) => Err(e),
                    Ok((has_cl, p2)) => {
                        let cl_step: Result<(Option<ChromaLocInfo>, int), ParseError> =
                            if has_cl {
                                match sp_read_chroma_loc(bits, p2) {
                                    Err(e) => Err(e),
                                    Ok((v, p3)) => Ok((Some(v), p3)),
                                }
                            } else {
                                Ok((None, p2))
                            };
                        match cl_step {
                            Err(e) => Err(e),
                            Ok((cl, p3)) => match sp_read_bit(bits, p3) {
                                Err(e) => Err(e),
                                Ok((has_ti, p4)) => {
                                    let ti_step: Result<(Option<TimingInfo>, int), ParseError> =
                                        if has_ti {
                                            match sp_read_timing(bits, p4) {
                                                Err(e) => Err(e),
                                                Ok((v, p5)) => Ok((Some(v), p5)),
                                            }
                                        } else {
                                            Ok((None, p4))
                                        };
                                    match ti_step {
                                        Err(e) => Err(e),
                                        Ok((ti, p5)) => sp_read_vui_end(
                                            bits, p5, aspect, over, vst, cl, ti),
                                    }
                                },
                            },
                        }
                    },
                },
            }
        },
    }
}

/// The VUI fields after the timing block: the two unsupported HRD
/// flags, `pic_struct_present_flag` and the bitstream restriction.
pub open spec fn sp_read_vui_end(bits: Seq<bool>, pos: int, aspect: Option<u8>,
    over: Option<bool>, vst: Option<VideoSignalType>, cl: Option<ChromaLocInfo>,
    ti: Option<TimingInfo>) -> Result<(VuiParameters, int), ParseError>
{
    match sp_read_bit(bits, pos) {
        Err(e) => Err(e),
        Ok((nal_hrd, p0)) => if nal_hrd {
            Err(ParseError::Unimplemented)
        } else {
            match sp_read_bit(bits, p0) {
                Err(e) => Err(e),
                Ok((vcl_hrd, p1)) => if vcl_hrd {
                    Err(ParseError::Unimplemented)
                } else {
                    match sp_read_bit(bits, p1) {
                        Err(e) => Err(e),
                        Ok((pic_struct, p2)) => match sp_read_bit(bits, p2) {
                            Err(e) => Err(e),
                            Ok((has_br, p3)) => {
                                let br_step: Result<(Option<BitstreamRestriction>, int),
                                    ParseError> = if has_br {
                                    match sp_read_bitstream_restriction(bits, p3) {
                                        Err(e) => Err(e),
                                        Ok((v, p4)) => Ok((Some(v), p4)),
                                    }
                                } else {
                                    Ok((None, p3))
                                };
                                match br_step {
                                    Err(e) => Err(e),
                                    Ok((br, p4)) => Ok((VuiParameters {
                                        aspect_ratio_idc: aspect,
                                        overscan_appropriate_flag: over,
                                        video_signal_type: vst,
                                        chroma_loc_info: cl,
                                        timing_info: ti,
                                        pic_struct_present_flag: pic_struct,
                                        bitstream_restriction: br,
                                    }, p4)),
                                }
                            },
                        },
                    }
                },
            }
        },
    }
}

/// What parsing a whole SPS RBSP yields, trailing bits included.
pub open spec fn sp_read_sps(bits: Seq<bool>, pos: int) -> Result<(Sps, int), ParseError> {
    match sp_read_bits(bits, pos, 8) {
        Err(e) => Err(e),
        Ok((profile, p1)) => match sp_read_bits(bits, p1, 8) {
            Err(e) => Err(e),
            Ok((flags8, p2)) => match sp_read_bits(bits, p2, 8) {
                Err(e) => Err(e),
                Ok((level, p3)) => match sp_ue_u8(bits, p3) {
                    Err(e) => Err(e),
                    Ok((sps_id, p4)) => match sp_read_profile_extras(bits, p4, profile as u8) {
                        Err(e) => Err(e),
                        Ok(((chroma, sep, luma, chroma_d, qp), p5)) =>
                            match sp_ue_u8(bits, p5) {
                                Err(e) => Err(e),
                                Ok((log2mfn, p6)) => match sp_read_poc(bits, p6) {
                                    Err(e) => Err(e),
                                    Ok((poc, p7)) => sp_read_sps_tail(bits, p7, Sps {
                                        profile_idc: profile as u8,
                                        constraint_set0_flag: bits[p1],
                                        constraint_set1_flag: bits[p1 + 1],
                                        constraint_set2_flag: bits[p1 + 2],
                                        constraint_set3_flag: bits[p1 + 3],
                                        constraint_set4_flag: bits[p1 + 4],
                                        constraint_set5_flag: bits[p1 + 5],
                                        level_idc: level as u8,
                                        seq_parameter_set_id: sps_id as u8,
                                        chroma_format_idc: chroma,
                                        separate_colour_plane_flag: sep,
                                        bit_depth_luma_minus8: luma,
                                        bit_depth_chroma_minus8: chroma_d,
                                        qpprime_y_zero_transform_bypass_flag: qp,
                                        log2_max_frame_num_minus4: log2mfn as u8,
                                        pic_order_cnt_type: poc,
                                        max_num_ref_frames: 0,
                                        gaps_in_frame_num_value_allowed_flag: false,
                                        pic_width_in_mbs_minus1: 0,
                                        pic_height_in_map_units_minus1: 0,
                                        frame_mbs_only_flag: false,
                                        mb_adaptive_frame_field_flag: false,
                                        direct_8x8_inference_flag: false,
                                        frame_crop_offset: None,
                                        vui_parameters: None,
                                    }),
                                },
                            },
                    },
                },
            },
        },
    }
}

/// The SPS fields after the picture order count block, filled into
/// `head`.
pub open spec fn sp_read_sps_tail(bits: Seq<bool>, pos: int, head: Sps)
    -> Result<(Sps, int), ParseError>
{
    match sp_ue(bits, pos) {
        Err(e) => Err(e),
        Ok((max_ref, p0)) => match sp_read_bit(bits, p0) {
            Err(e) => Err(e),
            Ok((gaps, p1)) => match sp_ue(bits, p1) {
                Err(e) => Err(e),
                Ok((width, p2)) => match sp_ue(bits, p2) {
                    Err(e) => Err(e),
                    Ok((height, p3)) => match sp_read_bit(bits, p3) {
                        Err(e) => Err(e),
                        Ok((mbs_only, p4)) => {
                            let adaptive_step: Result<(bool, int), ParseError> = if !mbs_only {
                                sp_read_bit(bits, p4)
                            } else {
                                Ok((false, p4))
                            };
                            match adaptive_step {
                                Err(e) => Err(e),
                                Ok((adaptive, p5)) => match sp_read_bit(bits, p5) {
                                    Err(e) => Err(e),
                                    Ok((direct, p6)) => match sp_read_crop(bits, p6) {
                                        Err(e) => Err(e),
                                        Ok((crop, p7)) => match sp_read_bit(bits, p7) {
                                            Err(e) => Err(e),
                                            Ok((has_vui, p8)) => {
                                                let vui_step: Result<(Option<VuiParameters>,
                                                    int), ParseError> = if has_vui {
                                                    match sp_read_vui(bits, p8) {
                                                        Err(e) => Err(e),
                                                        Ok((v, p9)) => Ok((Some(v), p9)),
                                                    }
                                                } else {
                                                    Ok((None, p8))
                                                };
                                                match vui_step {
                                                    Err(e) => Err(e),
                                                    Ok((vui, p9)) =>
                                                        match sp_rbsp_trailing(bits, p9) {
                                                            Err(e) => Err(e),
                                                            Ok(p10) => Ok((Sps {
                                                                max_num_ref_frames:
                                                                    max_ref as u32,
                                                                gaps_in_frame_num_value_allowed_flag:
                                                                    gaps,
                                                                pic_width_in_mbs_minus1:
                                                                    width as u32,
                                                                pic_height_in_map_units_minus1:
                                                                    height as u32,
                                                                frame_mbs_only_flag: mbs_only,
                                                                mb_adaptive_frame_field_flag:
                                                                    adaptive,
                                                                direct_8x8_inference_flag:
                                                                    direct,
                                                                frame_crop_offset: crop,
                                                                vui_parameters: vui,
                                                                ..head
                                                            }, p10)),
                                                        },
                                                }
                                            },
                                        },
                                    },
                                },
                            }
                        },
                    },
                },
            },
        },
    }
}

impl ColourDescription {
    pub fn read(reader: &mut BitReader) -> (r: Result<Self, ParseError>)
        requires old(reader).wf()
        ensures
            final(reader).wf(),
            final(reader).bits() == old(reader).bits(),
            match r {
                Ok(v) => sp_read_colour_description(old(reader).bits(), old(reader).pos())
                    == Ok::<(ColourDescription, int), ParseError>((v, final(reader).pos())),
                Err(e) => sp_read_colour_description(old(reader).bits(), old(reader).pos())
                    == Err::<(ColourDescription, int), ParseError>(e),
            },
    {
        let colour_primaries = match read_u8_bits(reader, 8) {
            Ok(v) => v, Err(e) => { return Err(e); },
        };
        let transfer_characteristics = match read_u8_bits(reader, 8) {
            Ok(v) => v, Err(e) => { return Err(e); },
        };
        let matrix_coefficients = match read_u8_bits(reader, 8) {
            Ok(v) => v, Err(e) => { return Err(e); },
        };
        Ok(ColourDescription { colour_primaries, transfer_characteristics, matrix_coefficients })
    }
}

impl VideoSignalType {
    pub fn read(reader: &mut BitReader) -> (r: Result<Self, ParseError>)
        requires old(reader).wf()
        ensures
            final(reader).wf(),
            final(reader).bits() == old(reader).bits(),
            match r {
                Ok(v) => sp_read_video_signal_type(old(reader).bits(), old(reader).pos())
                    == Ok::<(VideoSignalType, int), ParseError>((v, final(reader).pos())),
                Err(e) => sp_read_video_signal_type(old(reader).bits(), old(reader).pos())
                    == Err::<(VideoSignalType, int), ParseError>(e),
            },
    {
        let video_format = match read_u8_bits(reader, 3) {
            Ok(v) => v, Err(e) => { return Err(e); },
        };
        let video_full_range_flag = match read_bit_r(reader) {
            Ok(v) => v, Err(e) => { return Err(e); },
        };
        let has_cd = match read_bit_r(reader) {
            Ok(v) => v, Err(e) => { return Err(e); },
        };
        let colour_description = if has_cd {
            match ColourDescription::read(reader) {
                Ok(v) => Some(v), Err(e) => { return Err(e); },
            }
        } else {
            None
        };
        Ok(VideoSignalType { video_format, video_full_range_flag, colour_description })
    }
}

impl ChromaLocInfo {
    pub fn read(reader: &mut BitReader) -> (r: Result<Self, ParseError>)
        requires old(reader).wf()
        ensures
            final(reader).wf(),
            final(reader).bits() == old(reader).bits(),
            match r {
                Ok(v) => sp_read_chroma_loc(old(reader).bits(), old(reader).pos())
                    == Ok::<(ChromaLocInfo, int), ParseError>((v, final(reader).pos())),
                Err(e) => {
                    &&& sp_read_chroma_loc(old(reader).bits(), old(reader).pos())
                        == Err::<(ChromaLocInfo, int), ParseError>(e)
                    &&& e != ParseError::Io
                },
            },
    {
        let chroma_sample_loc_type_top_field = match read_ue(reader) {
            Ok(v) => v, Err(e) => { return Err(e); },
        };
        let chroma_sample_loc_type_bottom_field = match read_ue(reader) {
            Ok(v) => v, Err(e) => { return Err(e); },
        };
        Ok(ChromaLocInfo { chroma_sample_loc_type_top_field, chroma_sample_loc_type_bottom_field })
    }
}

impl TimingInfo {
    pub fn read(reader: &mut BitReader) -> (r: Result<Self, ParseError>)
        requires old(reader).wf()
        ensures
            final(reader).wf(),
            final(reader).bits() == old(reader).bits(),
            match r {
                Ok(v) => sp_read_timing(old(reader).bits(), old(reader).pos())
                    == Ok::<(TimingInfo, int), ParseError>((v, final(reader).pos())),
                Err(e) => sp_read_timing(old(reader).bits(), old(reader).pos())
                    == Err::<(TimingInfo, int), ParseError>(e),
            },
    {
        let num_units_in_tick = match read_bits_r(reader, 32) {
            Ok(v) => v, Err(e) => { return Err(e); },
        };
        let time_scale = match read_bits_r(reader, 32) {
            Ok(v) => v, Err(e) => { return Err(e); },
        };
        let fixed_frame_rate_flag = match read_bit_r(reader) {
            Ok(v) => v, Err(e) => { return Err(e); },
        };
        Ok(TimingInfo { num_units_in_tick, time_scale, fixed_frame_rate_flag })
    }
}

impl BitstreamRestriction {
    pub fn read(reader: &mut BitReader) -> (r: Result<Self, ParseError>)
        requires old(reader).wf()
        ensures
            final(reader).wf(),
            final(reader).bits() == old(reader).bits(),
            match r {
                Ok(v) => sp_read_bitstream_restriction(old(reader).bits(), old(reader).pos())
                    == Ok::<(BitstreamRestriction, int), ParseError>((v, final(reader).pos())),
                Err(e) => {
                    &&& sp_read_bitstream_restriction(old(reader).bits(), old(reader).pos())
                        == Err::<(BitstreamRestriction, int), ParseError>(e)
                    &&& e != ParseError::Io
                },
            },
    {
        let motion_vectors_over_pic_boundaries_flag = match read_bit_r(reader) {
            Ok(v) => v, Err(e) => { return Err(e); },
        };
        let max_bytes_per_pic_denom = match read_ue(reader) {
            Ok(v) => v, Err(e) => { return Err(e); },
        };
        let max_bits_per_mb_denom = match read_ue(reader) {
            Ok(v) => v, Err(e) => { return Err(e); },
        };
        let log2_max_mv_length_horizontal = match read_ue(reader) {
            Ok(v) => v, Err(e) => { return Err(e); },
        };
        let log2_max_mv_length_vertical = match read_ue(reader) {
            Ok(v) => v, Err(e) => { return Err(e); },
        };
        let max_num_reorder_frames = match read_ue(reader) {
            Ok(v) => v, Err(e) => { return Err(e); },
        };
        let max_dec_frame_buffering = match read_ue(reader) {
            Ok(v) => v, Err(e) => { return Err(e); },
        };
        Ok(BitstreamRestriction {
            motion_vectors_over_pic_boundaries_flag,
            max_bytes_per_pic_denom,
            max_bits_per_mb_denom,
            log2_max_mv_length_horizontal,
            log2_max_mv_length_vertical,
            max_num_reorder_frames,
            max_dec_frame_buffering,
        })
    }
}

/// Read the VUI fields after the overscan flag.
fn read_vui_tail(reader: &mut BitReader, aspect: Option<u8>, over: Option<bool>)
    -> (r: Result<VuiParameters, ParseError>)
    requires old(reader).wf()
    ensures
        final(reader).wf(),
        final(reader).bits() == old(reader).bits(),
        match r {
            Ok(v) => sp_read_vui_tail(old(reader).bits(), old(reader).pos(), aspect, over)
                == Ok::<(VuiParameters, int), ParseError>((v, final(reader).pos())),
            Err(e) => {
                &&& sp_read_vui_tail(old(reader).bits(), old(reader).pos(), aspect, over)
                    == Err::<(VuiParameters, int), ParseError>(e)
                &&& e != ParseError::Io
            },
        },
{
    let has_vst = match read_bit_r(reader) {
        Ok(v) => v, Err(e) => { return Err(e); },
    };
    let video_signal_type = if has_vst {
        match VideoSignalType::read(reader) {
            Ok(v) => Some(v), Err(e) => { return Err(e); },
        }
    } else {
        None
    };
    let has_cl = match read_bit_r(reader) {
        Ok(v) => v, Err(e) => { return Err(e); },
    };
    let chroma_loc_info = if has_cl {
        match ChromaLocInfo::read(reader) {
            Ok(v) => Some(v), Err(e) => { return Err(e); },
        }
    } else {
        None
    };
    let has_ti = match read_bit_r(reader) {
        Ok(v) => v, Err(e) => { return Err(e); },
    };
    let timing_info = if has_ti {
        match TimingInfo::read(reader) {
            Ok(v) => Some(v), Err(e) => { return Err(e); },
        }
    } else {
        None
    };
    read_vui_end(reader, aspect, over, video_signal_type, chroma_loc_info, timing_info)
}

/// Read the VUI fields after the timing block.
fn read_vui_end(reader: &mut BitReader, aspect: Option<u8>, over: Option<bool>,
    vst: Option<VideoSignalType>, cl: Option<ChromaLocInfo>, ti: Option<TimingInfo>)
    -> (r: Result<VuiParameters, ParseError>)
    requires old(reader).wf()
    ensures
        final(reader).wf(),
        final(reader).bits() == old(reader).bits(),
        match r {
            Ok(v) => sp_read_vui_end(old(reader).bits(), old(reader).pos(), aspect, over,
                    vst, cl, ti)
                == Ok::<(VuiParameters, int), ParseError>((v, final(reader).pos())),
            Err(e) => {
                &&& sp_read_vui_end(old(reader).bits(), old(reader).pos(), aspect, over,
                        vst, cl, ti)
                    == Err::<(VuiParameters, int), ParseError>(e)
                &&& e != ParseError::Io
            },
        },
{
    let nal_hrd = match read_bit_r(reader) {
        Ok(v) => v, Err(e) => { return Err(e); },
    };
    if nal_hrd {
        return Err(ParseError::Unimplemented);
    }
    let vcl_hrd = match read_bit_r(reader) {
        Ok(v) => v, Err(e) => { return Err(e); },
    };
    if vcl_hrd {
        return Err(ParseError::Unimplemented);
    }
    let pic_struct_present_flag = match read_bit_r(reader) {
        Ok(v) => v, Err(e) => { return Err(e); },
    };
    let has_br = match read_bit_r(reader) {
        Ok(v) => v, Err(e) => { return Err(e); },
    };
    let bitstream_restriction = if has_br {
        match BitstreamRestriction::read(reader) {
            Ok(v) => Some(v), Err(e) => { return Err(e); },
        }
    } else {
        None
    };
    Ok(VuiParameters {
        aspect_ratio_idc: aspect,
        overscan_appropriate_flag: over,
        video_signal_type: vst,
        chroma_loc_info: cl,
        timing_info: ti,
        pic_struct_present_flag,
        bitstream_restriction,
    })
}

impl VuiParameters {
    pub fn read(reader: &mut BitReader) -> (r: Result<Self, ParseError>)
        requires old(reader).wf()
        ensures
            final(reader).wf(),
            final(reader).bits() == old(reader).bits(),
            match r {
                Ok(v) => sp_read_vui(old(reader).bits(), old(reader).pos())
                    == Ok::<(VuiParameters, int), ParseError>((v, final(reader).pos())),
                Err(e) => {
                    &&& sp_read_vui(old(reader).bits(), old(reader).pos())
                        == Err::<(VuiParameters, int), ParseError>(e)
                    &&& e != ParseError::Io
                },
            },
    {
        let has_aspect = match read_bit_r(reader) {
            Ok(v) => v, Err(e) => { return Err(e); },
        };
        let aspect_ratio_idc = if has_aspect {
            let idc = match read_u8_bits(reader, 8) {
                Ok(v) => v, Err(e) => { return Err(e); },
            };
            if idc == 255 {
                return Err(ParseError::Unimplemented);
            }
            Some(idc)
        } else {
            None
        };
        let has_over = match read_bit_r(reader) {
            Ok(v) => v, Err(e) => { return Err(e); },
        };
        let overscan_appropriate_flag = if has_over {
            match read_bit_r(reader) {
                Ok(v) => Some(v), Err(e) => { return Err(e); },
            }
        } else {
            None
        };
        read_vui_tail(reader, aspect_ratio_idc, overscan_appropriate_flag)
    }
}

/// Read the chroma-format block of a high profile, or hand back the
/// defaults for any other profile.
fn read_profile_extras(reader: &mut BitReader, profile: u8)
    -> (r: Result<(u8, bool, u8, u8, bool), ParseError>)
    requires old(reader).wf()
    ensures
        final(reader).wf(),
        final(reader).bits() == old(reader).bits(),
        match r {
            Ok(v) => sp_read_profile_extras(old(reader).bits(), old(reader).pos(), profile)
                == Ok::<((u8, bool, u8, u8, bool), int), ParseError>((v, final(reader).pos())),
            Err(e) => {
                &&& sp_read_profile_extras(old(reader).bits(), old(reader).pos(), profile)
                    == Err::<((u8, bool, u8, u8, bool), int), ParseError>(e)
                &&& e != ParseError::Io
            },
        },
{
    if !is_high_profile(profile) {
        return Ok((1, false, 0, 0, false));
    }
    let chroma_format_idc = match read_ue_u8(reader) {
        Ok(v) => v, Err(e) => { return Err(e); },
    };
    let separate_colour_plane_flag = if chroma_format_idc == 3 {
        match read_bit_r(reader) {
            Ok(v) => v, Err(e) => { return Err(e); },
        }
    } else {
        false
    };
    let bit_depth_luma_minus8 = match read_ue_u8(reader) {
        Ok(v) => v, Err(e) => { return Err(e); },
    };
    let bit_depth_chroma_minus8 = match read_ue_u8(reader) {
        Ok(v) => v, Err(e) => { return Err(e); },
    };
    let qpprime_y_zero_transform_bypass_flag = match read_bit_r(reader) {
        Ok(v) => v, Err(e) => { return Err(e); },
    };
    let scaling = match read_bit_r(reader) {
        Ok(v) => v, Err(e) => { return Err(e); },
    };
    if scaling {
        return Err(ParseError::Unimplemented);
    }
    Ok((chroma_format_idc, separate_colour_plane_flag, bit_depth_luma_minus8,
        bit_depth_chroma_minus8, qpprime_y_zero_transform_bypass_flag))
}

/// Read the picture order count block.
fn read_poc(reader: &mut BitReader) -> (r: Result<PicOrderCntType, ParseError>)
    requires old(reader).wf()
    ensures
        final(reader).wf(),
        final(reader).bits() == old(reader).bits(),
        match r {
            Ok(v) => sp_read_poc(old(reader).bits(), old(reader).pos())
                == Ok::<(PicOrderCntType, int), ParseError>((v, final(reader).pos())),
            Err(e) => {
                &&& sp_read_poc(old(reader).bits(), old(reader).pos())
                    == Err::<(PicOrderCntType, int), ParseError>(e)
                &&& e != ParseError::Io
            },
        },
{
    let poc_kind = match read_ue(reader) {
        Ok(v) => v, Err(e) => { return Err(e); },
    };
    if poc_kind == 0 {
        match read_ue_u8(reader) {
            Ok(v) => Ok(PicOrderCntType::Type0(v)),
            Err(e) => Err(e),
        }
    } else if poc_kind == 1 {
        Err(ParseError::Unimplemented)
    } else if poc_kind == 2 {
        Ok(PicOrderCntType::Type2)
    } else {
        Err(ParseError::InvalidData)
    }
}

/// Read the frame cropping block.
fn read_crop(reader: &mut BitReader)
    -> (r: Result<Option<(u32, u32, u32, u32)>, ParseError>)
    requires old(reader).wf()
    ensures
        final(reader).wf(),
        final(reader).bits() == old(reader).bits(),
        match r {
            Ok(v) => sp_read_crop(old(reader).bits(), old(reader).pos())
                == Ok::<(Option<(u32, u32, u32, u32)>, int), ParseError>(
                    (v, final(reader).pos())),
            Err(e) => {
                &&& sp_read_crop(old(reader).bits(), old(reader).pos())
                    == Err::<(Option<(u32, u32, u32, u32)>, int), ParseError>(e)
                &&& e != ParseError::Io
            },
        },
{
    let has_crop = match read_bit_r(reader) {
        Ok(v) => v, Err(e) => { return Err(e); },
    };
    if !has_crop {
        return Ok(None);
    }
    let l = match read_ue(reader) { Ok(v) => v, Err(e) => { return Err(e); } };
    let r0 = match read_ue(reader) { Ok(v) => v, Err(e) => { return Err(e); } };
    let t = match read_ue(reader) { Ok(v) => v, Err(e) => { return Err(e); } };
    let b = match read_ue(reader) { Ok(v) => v, Err(e) => { return Err(e); } };
    Ok(Some((l, r0, t, b)))
}

/// Read the SPS fields after the picture order count block into
/// `head`.
#[verifier::rlimit(100)]
fn read_sps_tail(reader: &mut BitReader, head: Sps) -> (r: Result<Sps, ParseError>)
    requires old(reader).wf()
    ensures
        final(reader).wf(),
        final(reader).bits() == old(reader).bits(),
        match r {
            Ok(v) => sp_read_sps_tail(old(reader).bits(), old(reader).pos(), head)
                == Ok::<(Sps, int), ParseError>((v, final(reader).pos())),
            Err(e) => {
                &&& sp_read_sps_tail(old(reader).bits(), old(reader).pos(), head)
                    == Err::<(Sps, int), ParseError>(e)
                &&& e != ParseError::Io
            },
        },
{
    let max_num_ref_frames = match read_ue(reader) {
        Ok(v) => v, Err(e) => { return Err(e); },
    };
    let gaps_in_frame_num_value_allowed_flag = match read_bit_r(reader) {
        Ok(v) => v, Err(e) => { return Err(e); },
    };
    let pic_width_in_mbs_minus1 = match read_ue(reader) {
        Ok(v) => v, Err(e) => { return Err(e); },
    };
    let pic_height_in_map_units_minus1 = match read_ue(reader) {
        Ok(v) => v, Err(e) => { return Err(e); },
    };
    let frame_mbs_only_flag = match read_bit_r(reader) {
        Ok(v) => v, Err(e) => { return Err(e); },
    };
    let mb_adaptive_frame_field_flag = if !frame_mbs_only_flag {
        match read_bit_r(reader) {
            Ok(v) => v, Err(e) => { return Err(e); },
        }
    } else {
        false
    };
    let direct_8x8_inference_flag = match read_bit_r(reader) {
        Ok(v) => v, Err(e) => { return Err(e); },
    };
    let frame_crop_offset = match read_crop(reader) {
        Ok(v) => v, Err(e) => { return Err(e); },
    };
    let has_vui = match read_bit_r(reader) {
        Ok(v) => v, Err(e) => { return Err(e); },
    };
    let vui_parameters = if has_vui {
        match VuiParameters::read(reader) {
            Ok(v) => Some(v), Err(e) => { return Err(e); },
        }
    } else {
        None
    };
    match read_rbsp_trailing_bits(reader) {
        Ok(()) => {},
        Err(e) => { return Err(e); },
    }
    Ok(Sps {
        max_num_ref_frames,
        gaps_in_frame_num_value_allowed_flag,
        pic_width_in_mbs_minus1,
        pic_height_in_map_units_minus1,
        frame_mbs_only_flag,
        mb_adaptive_frame_field_flag,
        direct_8x8_inference_flag,
        frame_crop_offset,
        vui_parameters,
        ..head
    })
}

impl Sps {
    /// Parse a whole SPS RBSP, trailing bits included.
    #[verifier::rlimit(100)]
    pub fn read(reader: &mut BitReader) -> (r: Result<Self, ParseError>)
        requires old(reader).wf()
        ensures
            final(reader).wf(),
            final(reader).bits() == old(reader).bits(),
            match r {
                Ok(v) => sp_read_sps(old(reader).bits(), old(reader).pos())
                    == Ok::<(Sps, int), ParseError>((v, final(reader).pos())),
                Err(e) => {
                    &&& sp_read_sps(old(reader).bits(), old(reader).pos())
                        == Err::<(Sps, int), ParseError>(e)
                    &&& e != ParseError::Io
                },
            },
    {
        let ghost bits = reader.bits();
        let profile_idc = match read_u8_bits(reader, 8) {
            Ok(v) => v, Err(e) => { return Err(e); },
        };
        let ghost p1 = reader.pos();
        let flags8 = match read_u8_bits(reader, 8) {
            Ok(v) => v, Err(e) => { return Err(e); },
        };
        proof {
            lemma_flag_bits(bits, p1, flags8);
        }
        let constraint_set0_flag = flags8 / 128 % 2 == 1;
        let constraint_set1_flag = flags8 / 64 % 2 == 1;
        let constraint_set2_flag = flags8 / 32 % 2 == 1;
        let constraint_set3_flag = flags8 / 16 % 2 == 1;
        let constraint_set4_flag = flags8 / 8 % 2 == 1;
        let constraint_set5_flag = flags8 / 4 % 2 == 1;
        let level_idc = match read_u8_bits(reader, 8) {
            Ok(v) => v, Err(e) => { return Err(e); },
        };
        let seq_parameter_set_id = match read_ue_u8(reader) {
            Ok(v) => v, Err(e) => { return Err(e); },
        };
        let extras = match read_profile_extras(reader, profile_idc) {
            Ok(v) => v, Err(e) => { return Err(e); },
        };
        let log2_max_frame_num_minus4 = match read_ue_u8(reader) {
            Ok(v) => v, Err(e) => { return Err(e); },
        };
        let pic_order_cnt_type = match read_poc(reader) {
            Ok(v) => v, Err(e) => { return Err(e); },
        };
        let head = Sps {
            profile_idc,
            constraint_set0_flag,
            constraint_set1_flag,
            constraint_set2_flag,
            constraint_set3_flag,
            constraint_set4_flag,
            constraint_set5_flag,
            level_idc,
            seq_parameter_set_id,
            chroma_format_idc: extras.0,
            separate_colour_plane_flag: extras.1,
            bit_depth_luma_minus8: extras.2,
            bit_depth_chroma_minus8: extras.3,
            qpprime_y_zero_transform_bypass_flag: extras.4,
            log2_max_frame_num_minus4,
            pic_order_cnt_type,
            max_num_ref_frames: 0,
            gaps_in_frame_num_value_allowed_flag: false,
            pic_width_in_mbs_minus1: 0,
            pic_height_in_map_units_minus1: 0,
            frame_mbs_only_flag: false,
            mb_adaptive_frame_field_flag: false,
            direct_8x8_inference_flag: false,
            frame_crop_offset: None,
            vui_parameters: None,
        };
        read_sps_tail(reader, head)
    }
}

/// The six constraint flags of an SPS are the top bits of its second
/// byte.
proof fn lemma_flag_bits(bits: Seq<bool>, p1: int, flags8: u8)
    requires
        sp_read_bits(bits, p1, 8) is Ok,
        flags8 as nat == sp_read_bits(bits, p1, 8)->Ok_0.0,
    ensures
        bits[p1] == (flags8 / 128 % 2 == 1),
        bits[p1 + 1] == (flags8 / 64 % 2 == 1),
        bits[p1 + 2] == (flags8 / 32 % 2 == 1),
        bits[p1 + 3] == (flags8 / 16 % 2 == 1),
        bits[p1 + 4] == (flags8 / 8 % 2 == 1),
        bits[p1 + 5] == (flags8 / 4 % 2 == 1),
{
    let sub = bits.subrange(p1, p1 + 8);
    crate::bitio::lemma_uint_bits_of_val(sub);
    assert(uint_bits(flags8 as nat, 8) == sub);
    vstd::arithmetic::power2::lemma2_to64();
    assert(sub[0] == ((flags8 as nat / vstd::arithmetic::power2::pow2(7)) % 2 == 1));
    assert(sub[1] == ((flags8 as nat / vstd::arithmetic::power2::pow2(6)) % 2 == 1));
    assert(sub[2] == ((flags8 as nat / vstd::arithmetic::power2::pow2(5)) % 2 == 1));
    assert(sub[3] == ((flags8 as nat / vstd::arithmetic::power2::pow2(4)) % 2 == 1));
    assert(sub[4] == ((flags8 as nat / vstd::arithmetic::power2::pow2(3)) % 2 == 1));
    assert(sub[5] == ((flags8 as nat / vstd::arithmetic::power2::pow2(2)) % 2 == 1));
}


/// The serialized bits of a colour description.
pub open spec fn sp_colour_description_bits(v: ColourDescription) -> Seq<bool> {
    uint_bits(v.colour_primaries as nat, 8)
        + uint_bits(v.transfer_characteristics as nat, 8)
        + uint_bits(v.matrix_coefficients as nat, 8)
}

/// The serialized bits of a video signal type block.
pub open spec fn sp_video_signal_type_bits(v: VideoSignalType) -> Seq<bool> {
    uint_bits(v.video_format as nat, 3) + seq![v.video_full_range_flag]
        + match v.colour_description {
            None => seq![false],
            Some(cd) => seq![true] + sp_colour_description_bits(cd),
        }
}

/// The serialized bits of a chroma sample location block.
pub open spec fn sp_chroma_loc_bits(v: ChromaLocInfo) -> Seq<bool> {
    ue_bits(v.chroma_sample_loc_type_top_field as nat)
        + ue_bits(v.chroma_sample_loc_type_bottom_field as nat)
}

/// The serialized bits of a timing block.
pub open spec fn sp_timing_bits(v: TimingInfo) -> Seq<bool> {
    uint_bits(v.num_units_in_tick as nat, 32) + uint_bits(v.time_scale as nat, 32)
        + seq![v.fixed_frame_rate_flag]
}

/// The serialized bits of a bitstream restriction block.
pub open spec fn sp_bitstream_restriction_bits(v: BitstreamRestriction) -> Seq<bool> {
    seq![v.motion_vectors_over_pic_boundaries_flag]
        + ue_bits(v.max_bytes_per_pic_denom as nat)
        + ue_bits(v.max_bits_per_mb_denom as nat)
        + ue_bits(v.log2_max_mv_length_horizontal as nat)
        + ue_bits(v.log2_max_mv_length_vertical as nat)
        + ue_bits(v.max_num_reorder_frames as nat)
        + ue_bits(v.max_dec_frame_buffering as nat)
}

/// The serialized aspect-ratio and overscan fields of the VUI.
pub open spec fn sp_vui_head_bits(v: VuiParameters) -> Seq<bool> {
    (match v.aspect_ratio_idc {
        None => seq![false],
        Some(idc) => seq![true] + uint_bits(idc as nat, 8),
    })
    + (match v.overscan_appropriate_flag {
        None => seq![false],
        Some(f) => seq![true, f],
    })
}

/// The serialized VUI fields from the video signal type on.
pub open spec fn sp_vui_tail_bits(v: VuiParameters) -> Seq<bool> {
    (match v.video_signal_type {
        None => seq![false],
        Some(vst) => seq![true] + sp_video_signal_type_bits(vst),
    })
    + (match v.chroma_loc_info {
        None => seq![false],
        Some(cl) => seq![true] + sp_chroma_loc_bits(cl),
    })
    + (match v.timing_info {
        None => seq![false],
        Some(ti) => seq![true] + sp_timing_bits(ti),
    })
    + seq![false, false, v.pic_struct_present_flag]
    + (match v.bitstream_restriction {
        None => seq![false],
        Some(br) => seq![true] + sp_bitstream_restriction_bits(br),
    })
}

/// The serialized bits of the VUI parameters; the two HRD flags are
/// written clear.
pub open spec fn sp_vui_bits(v: VuiParameters) -> Seq<bool> {
    sp_vui_head_bits(v) + sp_vui_tail_bits(v)
}

/// The serialized SPS fields through the picture order count block:
/// the reserved two bits are written clear.
pub open spec fn sp_sps_head_bits(s: Sps) -> Seq<bool> {
    uint_bits(s.profile_idc as nat, 8)
    + seq![s.constraint_set0_flag, s.constraint_set1_flag, s.constraint_set2_flag,
        s.constraint_set3_flag, s.constraint_set4_flag, s.constraint_set5_flag,
        false, false]
    + uint_bits(s.level_idc as nat, 8)
    + ue_bits(s.seq_parameter_set_id as nat)
    + (if sp_high_profile(s.profile_idc) {
        ue_bits(s.chroma_format_idc as nat)
        + (if s.chroma_format_idc == 3 { seq![s.separate_colour_plane_flag] }
            else { Seq::<bool>::empty() })
        + ue_bits(s.bit_depth_luma_minus8 as nat)
        + ue_bits(s.bit_depth_chroma_minus8 as nat)
        + seq![s.qpprime_y_zero_transform_bypass_flag, false]
    } else {
        Seq::<bool>::empty()
    })
    + ue_bits(s.log2_max_frame_num_minus4 as nat)
    + (match s.pic_order_cnt_type {
        PicOrderCntType::Type0(lsb) => ue_bits(0) + ue_bits(lsb as nat),
        PicOrderCntType::Type2 => ue_bits(2),
    })
}

/// The serialized SPS fields after the picture order count block.
pub open spec fn sp_sps_tail_bits(s: Sps) -> Seq<bool> {
    ue_bits(s.max_num_ref_frames as nat)
    + seq![s.gaps_in_frame_num_value_allowed_flag]
    + ue_bits(s.pic_width_in_mbs_minus1 as nat)
    + ue_bits(s.pic_height_in_map_units_minus1 as nat)
    + seq![s.frame_mbs_only_flag]
    + (if !s.frame_mbs_only_flag { seq![s.mb_adaptive_frame_field_flag] }
        else { Seq::<bool>::empty() })
    + seq![s.direct_8x8_inference_flag]
    + (match s.frame_crop_offset {
        None => seq![false],
        Some((l, r, t, b)) => seq![true] + ue_bits(l as nat) + ue_bits(r as nat)
            + ue_bits(t as nat) + ue_bits(b as nat),
    })
    + (match s.vui_parameters {
        None => seq![false],
        Some(v) => seq![true] + sp_vui_bits(v),
    })
}

/// The serialized bits of an SPS, without the trailing bits.
pub open spec fn sp_sps_body_bits(s: Sps) -> Seq<bool> {
    sp_sps_head_bits(s) + sp_sps_tail_bits(s)
}

/// The serialized bits of an SPS written from a byte boundary:
/// the body, then the RBSP trailing bits.
pub open spec fn sp_sps_bits(s: Sps) -> Seq<bool> {
    let body = sp_sps_body_bits(s);
    body + seq![true]
        + Seq::new(BitWriter::align_pad(body.len() as int + 1) as nat, |i: int| false)
}

/// Every `ue(v)`-coded field fits its code.
pub open spec fn sp_sps_writable(s: Sps) -> bool {
    &&& s.max_num_ref_frames <= 0xFFFF_FFFE
    &&& s.pic_width_in_mbs_minus1 <= 0xFFFF_FFFE
    &&& s.pic_height_in_map_units_minus1 <= 0xFFFF_FFFE
    &&& match s.frame_crop_offset {
        None => true,
        Some((l, r, t, b)) => l <= 0xFFFF_FFFE && r <= 0xFFFF_FFFE && t <= 0xFFFF_FFFE
            && b <= 0xFFFF_FFFE,
    }
    &&& match s.vui_parameters {
        None => true,
        Some(v) => sp_vui_writable(v),
    }
}

pub open spec fn sp_vui_writable(v: VuiParameters) -> bool {
    &&& match v.video_signal_type {
        None => true,
        Some(vst) => vst.video_format < 8,
    }
    &&& match v.chroma_loc_info {
        None => true,
        Some(cl) => cl.chroma_sample_loc_type_top_field <= 0xFFFF_FFFE
            && cl.chroma_sample_loc_type_bottom_field <= 0xFFFF_FFFE,
    }
    &&& match v.bitstream_restriction {
        None => true,
        Some(br) => br.max_bytes_per_pic_denom <= 0xFFFF_FFFE
            && br.max_bits_per_mb_denom <= 0xFFFF_FFFE
            && br.log2_max_mv_length_horizontal <= 0xFFFF_FFFE
            && br.log2_max_mv_length_vertical <= 0xFFFF_FFFE
            && br.max_num_reorder_frames <= 0xFFFF_FFFE
            && br.max_dec_frame_buffering <= 0xFFFF_FFFE,
    }
}

impl ColourDescription {
    pub fn write(&self, writer: &mut BitWriter)
        requires old(writer).wf()
        ensures final(writer).wf(),
            final(writer).bits() == old(writer).bits() + sp_colour_description_bits(*self)
    {
        let ghost before = writer.bits();
        proof { vstd::arithmetic::power2::lemma2_to64(); }
        writer.write_bits(8, self.colour_primaries as u32);
        writer.write_bits(8, self.transfer_characteristics as u32);
        writer.write_bits(8, self.matrix_coefficients as u32);
        proof {
            assert(writer.bits() =~= before + sp_colour_description_bits(*self));
        }
    }
}

impl VideoSignalType {
    pub fn write(&self, writer: &mut BitWriter)
        requires old(writer).wf(), self.video_format < 8
        ensures final(writer).wf(),
            final(writer).bits() == old(writer).bits() + sp_video_signal_type_bits(*self)
    {
        let ghost before = writer.bits();
        proof {
            vstd::arithmetic::power2::lemma2_to64();
            vstd::arithmetic::power2::lemma_pow2_strictly_increases(3, 8);
        }
        writer.write_bits(3, self.video_format as u32);
        writer.write_bit(self.video_full_range_flag);
        match &self.colour_description {
            None => {
                writer.write_bit(false);
            },
            Some(cd) => {
                writer.write_bit(true);
                cd.write(writer);
            },
        }
        proof {
            assert(writer.bits() =~= before + sp_video_signal_type_bits(*self));
        }
    }
}

impl ChromaLocInfo {
    pub fn write(&self, writer: &mut BitWriter)
        requires old(writer).wf(),
            self.chroma_sample_loc_type_top_field <= 0xFFFF_FFFE,
            self.chroma_sample_loc_type_bottom_field <= 0xFFFF_FFFE,
        ensures final(writer).wf(),
            final(writer).bits() == old(writer).bits() + sp_chroma_loc_bits(*self)
    {
        let ghost before = writer.bits();
        write_ue(writer, self.chroma_sample_loc_type_top_field);
        write_ue(writer, self.chroma_sample_loc_type_bottom_field);
        proof {
            assert(writer.bits() =~= before + sp_chroma_loc_bits(*self));
        }
    }
}

impl TimingInfo {
    pub fn write(&self, writer: &mut BitWriter)
        requires old(writer).wf()
        ensures final(writer).wf(),
            final(writer).bits() == old(writer).bits() + sp_timing_bits(*self)
    {
        let ghost before = writer.bits();
        proof {
            vstd::arithmetic::power2::lemma2_to64();
            vstd::arithmetic::power2::lemma2_to64_rest();
        }
        writer.write_bits(32, self.num_units_in_tick);
        writer.write_bits(32, self.time_scale);
        writer.write_bit(self.fixed_frame_rate_flag);
        proof {
            assert(writer.bits() =~= before + sp_timing_bits(*self));
        }
    }
}

impl BitstreamRestriction {
    pub fn write(&self, writer: &mut BitWriter)
        requires old(writer).wf(),
            self.max_bytes_per_pic_denom <= 0xFFFF_FFFE,
            self.max_bits_per_mb_denom <= 0xFFFF_FFFE,
            self.log2_max_mv_length_horizontal <= 0xFFFF_FFFE,
            self.log2_max_mv_length_vertical <= 0xFFFF_FFFE,
            self.max_num_reorder_frames <= 0xFFFF_FFFE,
            self.max_dec_frame_buffering <= 0xFFFF_FFFE,
        ensures final(writer).wf(),
            final(writer).bits() == old(writer).bits() + sp_bitstream_restriction_bits(*self)
    {
        let ghost before = writer.bits();
        writer.write_bit(self.motion_vectors_over_pic_boundaries_flag);
        write_ue(writer, self.max_bytes_per_pic_denom);
        write_ue(writer, self.max_bits_per_mb_denom);
        write_ue(writer, self.log2_max_mv_length_horizontal);
        write_ue(writer, self.log2_max_mv_length_vertical);
        write_ue(writer, self.max_num_reorder_frames);
        write_ue(writer, self.max_dec_frame_buffering);
        proof {
            assert(writer.bits() =~= before + sp_bitstream_restriction_bits(*self));
        }
    }
}

/// Write the VUI fields from the video signal type on.
fn write_vui_tail(v: &VuiParameters, writer: &mut BitWriter)
    requires old(writer).wf(), sp_vui_writable(*v)
    ensures final(writer).wf(),
        final(writer).bits() == old(writer).bits() + sp_vui_tail_bits(*v)
{
    let ghost before = writer.bits();
    let ghost mut chunk: Seq<bool> = Seq::empty();
    match &v.video_signal_type {
        None => {
            writer.write_bit(false);
            proof { chunk = seq![false]; }
        },
        Some(vst) => {
            writer.write_bit(true);
            vst.write(writer);
            proof {
                crate::bitio::lemma_seq_assoc(before, seq![true], sp_video_signal_type_bits(*vst));
                chunk = seq![true] + sp_video_signal_type_bits(*vst);
            }
        },
    }
    proof { assert(writer.bits() == before + chunk); }
    match &v.chroma_loc_info {
        None => {
            writer.write_bit(false);
            proof {
                crate::bitio::lemma_seq_assoc(before, chunk, seq![false]);
                chunk = chunk + seq![false];
            }
        },
        Some(cl) => {
            writer.write_bit(true);
            cl.write(writer);
            proof {
                crate::bitio::lemma_seq_assoc(before + chunk, seq![true], sp_chroma_loc_bits(*cl));
                crate::bitio::lemma_seq_assoc(before, chunk, seq![true] + sp_chroma_loc_bits(*cl));
                chunk = chunk + (seq![true] + sp_chroma_loc_bits(*cl));
            }
        },
    }
    proof { assert(writer.bits() == before + chunk); }
    match &v.timing_info {
        None => {
            writer.write_bit(false);
            proof {
                crate::bitio::lemma_seq_assoc(before, chunk, seq![false]);
                chunk = chunk + seq![false];
            }
        },
        Some(ti) => {
            writer.write_bit(true);
            ti.write(writer);
            proof {
                crate::bitio::lemma_seq_assoc(before + chunk, seq![true], sp_timing_bits(*ti));
                crate::bitio::lemma_seq_assoc(before, chunk, seq![true] + sp_timing_bits(*ti));
                chunk = chunk + (seq![true] + sp_timing_bits(*ti));
            }
        },
    }
    proof { assert(writer.bits() == before + chunk); }
    writer.write_bit(false);
    writer.write_bit(false);
    writer.write_bit(v.pic_struct_present_flag);
    proof {
        crate::bitio::lemma_seq_triple(before + chunk, false, false, v.pic_struct_present_flag);
        crate::bitio::lemma_seq_assoc(before, chunk, seq![false, false, v.pic_struct_present_flag]);
        chunk = chunk + seq![false, false, v.pic_struct_present_flag];
        assert(writer.bits() == before + chunk);
    }
    match &v.bitstream_restriction {
        None => {
            writer.write_bit(false);
            proof {
                crate::bitio::lemma_seq_assoc(before, chunk, seq![false]);
                chunk = chunk + seq![false];
            }
        },
        Some(br) => {
            writer.write_bit(true);
            br.write(writer);
            proof {
                crate::bitio::lemma_seq_assoc(before + chunk, seq![true],
                    sp_bitstream_restriction_bits(*br));
                crate::bitio::lemma_seq_assoc(before, chunk,
                    seq![true] + sp_bitstream_restriction_bits(*br));
                chunk = chunk + (seq![true] + sp_bitstream_restriction_bits(*br));
            }
        },
    }
    proof {
        assert(writer.bits() == before + chunk);
        assert(chunk == sp_vui_tail_bits(*v));
    }
}

impl VuiParameters {
    #[verifier::rlimit(100)]
    pub fn write(&self, writer: &mut BitWriter)
        requires old(writer).wf(), sp_vui_writable(*self)
        ensures final(writer).wf(),
            final(writer).bits() == old(writer).bits() + sp_vui_bits(*self)
    {
        let ghost before = writer.bits();
        proof { vstd::arithmetic::power2::lemma2_to64(); }
        match &self.aspect_ratio_idc {
            None => {
                writer.write_bit(false);
            },
            Some(idc) => {
                writer.write_bit(true);
                writer.write_bits(8, *idc as u32);
            },
        }
        match &self.overscan_appropriate_flag {
            None => {
                writer.write_bit(false);
            },
            Some(f) => {
                writer.write_bit(true);
                writer.write_bit(*f);
            },
        }
        proof {
            assert(writer.bits() =~= before + sp_vui_head_bits(*self));
        }
        write_vui_tail(self, writer);
        proof {
            assert(writer.bits() =~= before + sp_vui_bits(*self));
        }
    }
}

/// Write the SPS fields after the picture order count block.
fn write_sps_tail(s: &Sps, writer: &mut BitWriter)
    requires old(writer).wf(), sp_sps_writable(*s)
    ensures final(writer).wf(),
        final(writer).bits() == old(writer).bits() + sp_sps_tail_bits(*s)
{
    let ghost before = writer.bits();
    let ghost mut chunk: Seq<bool> = Seq::empty();
    write_ue(writer, s.max_num_ref_frames);
    proof { chunk = ue_bits(s.max_num_ref_frames as nat); }
    writer.write_bit(s.gaps_in_frame_num_value_allowed_flag);
    proof {
        crate::bitio::lemma_seq_assoc(before, chunk, seq![s.gaps_in_frame_num_value_allowed_flag]);
        chunk = chunk + seq![s.gaps_in_frame_num_value_allowed_flag];
    }
    write_ue(writer, s.pic_width_in_mbs_minus1);
    proof {
        crate::bitio::lemma_seq_assoc(before, chunk, ue_bits(s.pic_width_in_mbs_minus1 as nat));
        chunk = chunk + ue_bits(s.pic_width_in_mbs_minus1 as nat);
    }
    write_ue(writer, s.pic_height_in_map_units_minus1);
    proof {
        crate::bitio::lemma_seq_assoc(before, chunk, ue_bits(s.pic_height_in_map_units_minus1 as nat));
        chunk = chunk + ue_bits(s.pic_height_in_map_units_minus1 as nat);
    }
    writer.write_bit(s.frame_mbs_only_flag);
    proof {
        crate::bitio::lemma_seq_assoc(before, chunk, seq![s.frame_mbs_only_flag]);
        chunk = chunk + seq![s.frame_mbs_only_flag];
    }
    if !s.frame_mbs_only_flag {
        writer.write_bit(s.mb_adaptive_frame_field_flag);
        proof {
            crate::bitio::lemma_seq_assoc(before, chunk, seq![s.mb_adaptive_frame_field_flag]);
            chunk = chunk + seq![s.mb_adaptive_frame_field_flag];
        }
    } else {
        proof {
            crate::bitio::lemma_seq_add_empty(chunk);
            chunk = chunk + Seq::<bool>::empty();
        }
    }
    proof { assert(writer.bits() == before + chunk); }
    writer.write_bit(s.direct_8x8_inference_flag);
    proof {
        crate::bitio::lemma_seq_assoc(before, chunk, seq![s.direct_8x8_inference_flag]);
        chunk = chunk + seq![s.direct_8x8_inference_flag];
    }
    match s.frame_crop_offset {
        None => {
            writer.write_bit(false);
            proof {
                crate::bitio::lemma_seq_assoc(before, chunk, seq![false]);
                chunk = chunk + seq![false];
            }
        },
        Some((l, r, t, b)) => {
            let ghost base = before + chunk;
            writer.write_bit(true);
            write_ue(writer, l);
            write_ue(writer, r);
            write_ue(writer, t);
            write_ue(writer, b);
            proof {
                let ghost mut inner: Seq<bool> = seq![true];
                crate::bitio::lemma_seq_assoc(base, inner, ue_bits(l as nat));
                inner = inner + ue_bits(l as nat);
                crate::bitio::lemma_seq_assoc(base, inner, ue_bits(r as nat));
                inner = inner + ue_bits(r as nat);
                crate::bitio::lemma_seq_assoc(base, inner, ue_bits(t as nat));
                inner = inner + ue_bits(t as nat);
                crate::bitio::lemma_seq_assoc(base, inner, ue_bits(b as nat));
                inner = inner + ue_bits(b as nat);
                assert(writer.bits() == base + inner);
                crate::bitio::lemma_seq_assoc(before, chunk, inner);
                chunk = chunk + inner;
            }
        },
    }
    proof { assert(writer.bits() == before + chunk); }
    match &s.vui_parameters {
        None => {
            writer.write_bit(false);
            proof {
                crate::bitio::lemma_seq_assoc(before, chunk, seq![false]);
                chunk = chunk + seq![false];
            }
        },
        Some(v) => {
            writer.write_bit(true);
            v.write(writer);
            proof {
                crate::bitio::lemma_seq_assoc(before + chunk, seq![true], sp_vui_bits(*v));
                crate::bitio::lemma_seq_assoc(before, chunk, seq![true] + sp_vui_bits(*v));
                chunk = chunk + (seq![true] + sp_vui_bits(*v));
            }
        },
    }
    proof {
        assert(writer.bits() == before + chunk);
        assert(chunk == sp_sps_tail_bits(*s));
    }
}

impl Sps {
    /// Serialize a whole SPS RBSP, trailing bits included; the writer
    /// must stand at a byte boundary.
    #[verifier::rlimit(100)]
    pub fn write(&self, writer: &mut BitWriter)
        requires
            old(writer).wf(),
            old(writer).bits().len() % 8 == 0,
            sp_sps_writable(*self),
        ensures final(writer).wf(),
            final(writer).bits() == old(writer).bits() + sp_sps_bits(*self)
    {
        let ghost before = writer.bits();
        let ghost mut chunk: Seq<bool> = Seq::empty();
        proof { vstd::arithmetic::power2::lemma2_to64(); }
        writer.write_bits(8, self.profile_idc as u32);
        proof { chunk = uint_bits(self.profile_idc as nat, 8); }
        writer.write_bit(self.constraint_set0_flag);
        writer.write_bit(self.constraint_set1_flag);
        writer.write_bit(self.constraint_set2_flag);
        writer.write_bit(self.constraint_set3_flag);
        writer.write_bit(self.constraint_set4_flag);
        writer.write_bit(self.constraint_set5_flag);
        writer.write_bit(false);
        writer.write_bit(false);
        proof {
            let flags = seq![self.constraint_set0_flag, self.constraint_set1_flag,
                self.constraint_set2_flag, self.constraint_set3_flag,
                self.constraint_set4_flag, self.constraint_set5_flag, false, false];
            assert(writer.bits() =~= (before + chunk) + flags);
            crate::bitio::lemma_seq_assoc(before, chunk, flags);
            chunk = chunk + flags;
        }
        writer.write_bits(8, self.level_idc as u32);
        proof {
            crate::bitio::lemma_seq_assoc(before, chunk, uint_bits(self.level_idc as nat, 8));
            chunk = chunk + uint_bits(self.level_idc as nat, 8);
        }
        write_ue(writer, self.seq_parameter_set_id as u32);
        proof {
            crate::bitio::lemma_seq_assoc(before, chunk, ue_bits(self.seq_parameter_set_id as nat));
            chunk = chunk + ue_bits(self.seq_parameter_set_id as nat);
        }
        if is_high_profile(self.profile_idc) {
            let ghost base = before + chunk;
            write_ue(writer, self.chroma_format_idc as u32);
            let ghost mut inner: Seq<bool> = ue_bits(self.chroma_format_idc as nat);
            if self.chroma_format_idc == 3 {
                writer.write_bit(self.separate_colour_plane_flag);
                proof {
                    crate::bitio::lemma_seq_assoc(base, inner, seq![self.separate_colour_plane_flag]);
                    inner = inner + seq![self.separate_colour_plane_flag];
                }
            } else {
                proof {
                    crate::bitio::lemma_seq_add_empty(inner);
                    inner = inner + Seq::<bool>::empty();
                }
            }
            write_ue(writer, self.bit_depth_luma_minus8 as u32);
            proof {
                crate::bitio::lemma_seq_assoc(base, inner, ue_bits(self.bit_depth_luma_minus8 as nat));
                inner = inner + ue_bits(self.bit_depth_luma_minus8 as nat);
            }
            write_ue(writer, self.bit_depth_chroma_minus8 as u32);
            proof {
                crate::bitio::lemma_seq_assoc(base, inner, ue_bits(self.bit_depth_chroma_minus8 as nat));
                inner = inner + ue_bits(self.bit_depth_chroma_minus8 as nat);
            }
            writer.write_bit(self.qpprime_y_zero_transform_bypass_flag);
            writer.write_bit(false);
            proof {
                crate::bitio::lemma_seq_pair(base + inner, self.qpprime_y_zero_transform_bypass_flag,
                    false);
                crate::bitio::lemma_seq_assoc(base, inner,
                    seq![self.qpprime_y_zero_transform_bypass_flag, false]);
                inner = inner + seq![self.qpprime_y_zero_transform_bypass_flag, false];
                assert(writer.bits() == base + inner);
                crate::bitio::lemma_seq_assoc(before, chunk, inner);
                chunk = chunk + inner;
            }
        } else {
            proof {
                crate::bitio::lemma_seq_add_empty(chunk);
                chunk = chunk + Seq::<bool>::empty();
            }
        }
        proof { assert(writer.bits() == before + chunk); }
        write_ue(writer, self.log2_max_frame_num_minus4 as u32);
        proof {
            crate::bitio::lemma_seq_assoc(before, chunk, ue_bits(self.log2_max_frame_num_minus4 as nat));
            chunk = chunk + ue_bits(self.log2_max_frame_num_minus4 as nat);
        }
        match self.pic_order_cnt_type {
            PicOrderCntType::Type0(lsb) => {
                write_ue(writer, 0);
                write_ue(writer, lsb as u32);
                proof {
                    crate::bitio::lemma_seq_assoc(before + chunk, ue_bits(0), ue_bits(lsb as nat));
                    crate::bitio::lemma_seq_assoc(before, chunk, ue_bits(0) + ue_bits(lsb as nat));
                    chunk = chunk + (ue_bits(0) + ue_bits(lsb as nat));
                }
            },
            PicOrderCntType::Type2 => {
                write_ue(writer, 2);
                proof {
                    crate::bitio::lemma_seq_assoc(before, chunk, ue_bits(2));
                    chunk = chunk + ue_bits(2);
                }
            },
        }
        proof {
            assert(writer.bits() == before + chunk);
            assert(chunk == sp_sps_head_bits(*self));
        }
        write_sps_tail(self, writer);
        proof {
            crate::bitio::lemma_seq_assoc(before, sp_sps_head_bits(*self), sp_sps_tail_bits(*self));
        }
        write_rbsp_trailing_bits(writer);
        proof {
            let body = sp_sps_body_bits(*self);
            let pad = Seq::new(
                BitWriter::align_pad(body.len() as int + 1) as nat, |i: int| false);
            vstd::arithmetic::div_mod::lemma_mod_multiples_vanish(
                before.len() as int / 8, body.len() as int + 1, 8);
            vstd::arithmetic::div_mod::lemma_fundamental_div_mod(before.len() as int, 8);
            assert((before.len() + body.len() + 1) % 8 == (body.len() + 1) % 8);
            assert(writer.bits() == ((before + body) + seq![true]) + pad);
            crate::bitio::lemma_seq_assoc(before + body, seq![true], pad);
            crate::bitio::lemma_seq_assoc(before, body, seq![true] + pad);
        }
    }
}

} // verus!
