//! The NAL unit type code table and the frame-type table of the
//! H.264 byte-stream syntax.

use vstd::prelude::*;

verus! {

/// The type of a NAL unit, as carried in the low five bits of its
/// one-byte header.
#[derive(Debug, Copy, Clone, PartialEq, Eq, Structural)]
pub enum NALUnitType {
    Unspecified,
    CodedSliceNonIdr,
    CodedSliceDataPartitionA,
    CodedSliceDataPartitionB,
    CodedSliceDataPartitionC,
    CodedSliceIdr,
    Sei,
    Sps,
    Pps,
    Aud,
    EndOfSequence,
    EndOfStream,
    Filler,
    SpsExt,
    PrefixNal,
    SubsetSps,
    Dps,
    CodedSliceAux,
    CodedSliceSvcExtension,
    NAL21,
}

impl NALUnitType {
    /// The five-bit code of this type.
    pub open spec fn sp_code(self) -> u8 {
        match self {
            NALUnitType::Unspecified => 0,
            NALUnitType::CodedSliceNonIdr => 1,
            NALUnitType::CodedSliceDataPartitionA => 2,
            NALUnitType::CodedSliceDataPartitionB => 3,
            NALUnitType::CodedSliceDataPartitionC => 4,
            NALUnitType::CodedSliceIdr => 5,
            NALUnitType::Sei => 6,
            NALUnitType::Sps => 7,
            NALUnitType::Pps => 8,
            NALUnitType::Aud => 9,
            NALUnitType::EndOfSequence => 10,
            NALUnitType::EndOfStream => 11,
            NALUnitType::Filler => 12,
            NALUnitType::SpsExt => 13,
            NALUnitType::PrefixNal => 14,
            NALUnitType::SubsetSps => 15,
            NALUnitType::Dps => 16,
            NALUnitType::CodedSliceAux => 19,
            NALUnitType::CodedSliceSvcExtension => 20,
            NALUnitType::NAL21 => 21,
        }
    }

    /// The type a five-bit code stands for; codes 17, 18 and 22 to 31
    /// name no type.
    pub open spec fn sp_from_code(code: u8) -> Option<NALUnitType> {
        if code == 0 { Some(NALUnitType::Unspecified) }
        else if code == 1 { Some(NALUnitType::CodedSliceNonIdr) }
        else if code == 2 { Some(NALUnitType::CodedSliceDataPartitionA) }
        else if code == 3 { Some(NALUnitType::CodedSliceDataPartitionB) }
        else if code == 4 { Some(NALUnitType::CodedSliceDataPartitionC) }
        else if code == 5 { Some(NALUnitType::CodedSliceIdr) }
        else if code == 6 { Some(NALUnitType::Sei) }
        else if code == 7 { Some(NALUnitType::Sps) }
        else if code == 8 { Some(NALUnitType::Pps) }
        else if code == 9 { Some(NALUnitType::Aud) }
        else if code == 10 { Some(NALUnitType::EndOfSequence) }
        else if code == 11 { Some(NALUnitType::EndOfStream) }
        else if code == 12 { Some(NALUnitType::Filler) }
        else if code == 13 { Some(NALUnitType::SpsExt) }
        else if code == 14 { Some(NALUnitType::PrefixNal) }
        else if code == 15 { Some(NALUnitType::SubsetSps) }
        else if code == 16 { Some(NALUnitType::Dps) }
        else if code == 19 { Some(NALUnitType::CodedSliceAux) }
        else if code == 20 { Some(NALUnitType::CodedSliceSvcExtension) }
        else if code == 21 { Some(NALUnitType::NAL21) }
        else { None }
    }

    /// The five-bit code of this type.
    pub fn code(self) -> (r: u8)
        ensures r == self.sp_code(), r < 32
    {
        match self {
            NALUnitType::Unspecified => 0,
            NALUnitType::CodedSliceNonIdr => 1,
            NALUnitType::CodedSliceDataPartitionA => 2,
            NALUnitType::CodedSliceDataPartitionB => 3,
            NALUnitType::CodedSliceDataPartitionC => 4,
            NALUnitType::CodedSliceIdr => 5,
            NALUnitType::Sei => 6,
            NALUnitType::Sps => 7,
            NALUnitType::Pps => 8,
            NALUnitType::Aud => 9,
            NALUnitType::EndOfSequence => 10,
            NALUnitType::EndOfStream => 11,
            NALUnitType::Filler => 12,
            NALUnitType::SpsExt => 13,
            NALUnitType::PrefixNal => 14,
            NALUnitType::SubsetSps => 15,
            NALUnitType::Dps => 16,
            NALUnitType::CodedSliceAux => 19,
            NALUnitType::CodedSliceSvcExtension => 20,
            NALUnitType::NAL21 => 21,
        }
    }

    /// Look a five-bit code up.
    pub fn from_code(code: u8) -> (r: Option<NALUnitType>)
        ensures r == Self::sp_from_code(code)
    {
        match code {
            0 => Some(NALUnitType::Unspecified),
            1 => Some(NALUnitType::CodedSliceNonIdr),
            2 => Some(NALUnitType::CodedSliceDataPartitionA),
            3 => Some(NALUnitType::CodedSliceDataPartitionB),
            4 => Some(NALUnitType::CodedSliceDataPartitionC),
            5 => Some(NALUnitType::CodedSliceIdr),
            6 => Some(NALUnitType::Sei),
            7 => Some(NALUnitType::Sps),
            8 => Some(NALUnitType::Pps),
            9 => Some(NALUnitType::Aud),
            10 => Some(NALUnitType::EndOfSequence),
            11 => Some(NALUnitType::EndOfStream),
            12 => Some(NALUnitType::Filler),
            13 => Some(NALUnitType::SpsExt),
            14 => Some(NALUnitType::PrefixNal),
            15 => Some(NALUnitType::SubsetSps),
            16 => Some(NALUnitType::Dps),
            19 => Some(NALUnitType::CodedSliceAux),
            20 => Some(NALUnitType::CodedSliceSvcExtension),
            21 => Some(NALUnitType::NAL21),
            _ => None,
        }
    }

    /// The code table is its own inverse.
    pub proof fn lemma_code_roundtrip(self)
        ensures Self::sp_from_code(self.sp_code()) == Some(self)
    {
    }

    /// True only for IDR and non-IDR coded slices.
    pub fn is_picture_data(&self) -> (r: bool)
        ensures r == (*self == NALUnitType::CodedSliceIdr
            || *self == NALUnitType::CodedSliceNonIdr)
    {
        match self {
            NALUnitType::CodedSliceIdr | NALUnitType::CodedSliceNonIdr => true,
            _ => false,
        }
    }

    /// True only for IDR coded slices.
    pub fn idr_pic_flag(&self) -> (r: bool)
        ensures r == (*self == NALUnitType::CodedSliceIdr)
    {
        match self {
            NALUnitType::CodedSliceIdr => true,
            _ => false,
        }
    }
}

/// The frame type named by a slice header's `slice_type` field.
#[derive(Debug, Copy, Clone, PartialEq, Eq, Structural)]
pub enum FrameType {
    P,
    B,
    I,
    POnly,
    BOnly,
    IOnly,
    SPOnly,
    SIOnly,
}

impl FrameType {
    pub open spec fn sp_from_slice_type(sh_slice_type: i32) -> Option<FrameType> {
        if sh_slice_type == 0 { Some(FrameType::P) }
        else if sh_slice_type == 1 { Some(FrameType::B) }
        else if sh_slice_type == 2 { Some(FrameType::I) }
        else if sh_slice_type == 5 { Some(FrameType::POnly) }
        else if sh_slice_type == 6 { Some(FrameType::BOnly) }
        else if sh_slice_type == 7 { Some(FrameType::IOnly) }
        else if sh_slice_type == 8 { Some(FrameType::SPOnly) }
        else if sh_slice_type == 9 { Some(FrameType::SIOnly) }
        else { None }
    }

    /// The frame type for a `slice_type` value; other values name none.
    pub fn from_sh_slice_type(sh_slice_type: i32) -> (r: FrameType)
        requires Self::sp_from_slice_type(sh_slice_type) is Some
        ensures Some(r) == Self::sp_from_slice_type(sh_slice_type)
    {
        match sh_slice_type {
            0 => FrameType::P,
            1 => FrameType::B,
            2 => FrameType::I,
            5 => FrameType::POnly,
            6 => FrameType::BOnly,
            7 => FrameType::IOnly,
            8 => FrameType::SPOnly,
            _ => FrameType::SIOnly,
        }
    }
}

} // verus!
