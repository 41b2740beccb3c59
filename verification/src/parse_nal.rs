//! The standalone slice-header reader the emit path uses: it decodes
//! the leading fields, keeps the raw bytes, and re-serializes them
//! unchanged except for `frame_num`.
//!
//! `frame_num` is read and written as four bits here; reading the
//! width from the active SPS is the context-aware reader's job.

use vstd::prelude::*;
use crate::bitio::{BitReader, BitWriter, bytes_bits, bits_val, uint_bits};
use crate::parse_h264::{ParseError, sp_ue, ue_bits, read_ue, write_ue};

verus! {

/// A slice header: the decoded leading fields plus the raw bytes and
/// the bit position of the first bit after `frame_num`, so the header
/// can be re-serialized unchanged except for `frame_num`.
#[derive(Debug)]
pub struct SliceHeader {
    pub first_mb_in_slice: u32,
    pub slice_type: u32,
    pub pic_parameter_set_id: u32,
    pub frame_num: u32,
    pub data: Vec<u8>,
    /// Byte part of the retained-tail position; set by `from_bytes`.
    pub data_offset_byte: usize,
    /// Bit part of the retained-tail position; set by `from_bytes`.
    pub data_offset_bit: usize,
}

/// What parsing the leading slice-header fields of `s` yields:
/// `first_mb_in_slice`, `slice_type` and `pic_parameter_set_id` as
/// `ue(v)`, then four bits of `frame_num`; and the bit position after
/// `frame_num`.
pub open spec fn sp_parse_slice(s: Seq<u8>)
    -> Result<((nat, nat, nat, nat), int), ParseError>
{
    let bits = bytes_bits(s);
    match sp_ue(bits, 0) {
        Err(e) => Err(e),
        Ok((mb, p1)) => match sp_ue(bits, p1) {
            Err(e) => Err(e),
            Ok((st, p2)) => match sp_ue(bits, p2) {
                Err(e) => Err(e),
                Ok((pps, p3)) => if p3 + 4 <= bits.len() {
                    Ok(((mb, st, pps, bits_val(bits.subrange(p3, p3 + 4))), p3 + 4))
                } else {
                    Err(ParseError::EndOfStream)
                },
            },
        },
    }
}

impl SliceHeader {
    /// The retained raw bytes, as bits.
    pub open spec fn data_bits(&self) -> Seq<bool> {
        bytes_bits(self.data@)
    }

    /// The first bit after `frame_num` in the retained bytes.
    pub open spec fn tail_pos(&self) -> int {
        8 * self.data_offset_byte + self.data_offset_bit
    }

    pub open spec fn offsets_wf(&self) -> bool {
        self.data_offset_bit < 8
            && 8 * self.data_offset_byte + self.data_offset_bit <= self.data_bits().len()
    }

    /// A header fit for re-serialization: valid offsets and fields
    /// that fit their codes.
    pub open spec fn wf(&self) -> bool {
        &&& self.offsets_wf()
        &&& 0 <= self.tail_pos() <= self.data_bits().len()
        &&& self.first_mb_in_slice <= 0xFFFF_FFFE
        &&& self.slice_type <= 0xFFFF_FFFE
        &&& self.pic_parameter_set_id <= 0xFFFF_FFFE
        &&& self.frame_num < 16
    }

    /// Parse the leading fields and retain the raw bytes.
    pub fn from_bytes(bytes: &[u8]) -> (r: Result<Self, ParseError>)
        ensures
            match r {
                Ok(h) => {
                    &&& sp_parse_slice(bytes@) == Ok::<_, ParseError>((
                        (h.first_mb_in_slice as nat, h.slice_type as nat,
                         h.pic_parameter_set_id as nat, h.frame_num as nat),
                        h.tail_pos()))
                    &&& h.data@ == bytes@
                    &&& h.wf()
                },
                Err(e) => {
                    &&& sp_parse_slice(bytes@) == Err::<((nat, nat, nat, nat), int), _>(e)
                    &&& e != ParseError::Io
                },
            },
    {
        let mut data: Vec<u8> = Vec::new();
        let mut i: usize = 0;
        while i < bytes.len()
            invariant i <= bytes@.len(), data@ == bytes@.subrange(0, i as int),
            decreases bytes@.len() - i,
        {
            data.push(bytes[i]);
            proof {
                assert(bytes@.subrange(0, i as int).push(bytes@[i as int])
                    =~= bytes@.subrange(0, i + 1));
            }
            i = i + 1;
        }
        proof { assert(data@ =~= bytes@); }
        let mut copy2: Vec<u8> = Vec::new();
        let mut j: usize = 0;
        while j < data.len()
            invariant j <= data@.len(), copy2@ == data@.subrange(0, j as int),
            decreases data@.len() - j,
        {
            copy2.push(data[j]);
            proof {
                assert(data@.subrange(0, j as int).push(data@[j as int])
                    =~= data@.subrange(0, j + 1));
            }
            j = j + 1;
        }
        proof { assert(copy2@ =~= data@); }
        let mut reader = BitReader::new(copy2);
        let first_mb_in_slice = match read_ue(&mut reader) {
            Ok(v) => v,
            Err(e) => { return Err(e); },
        };
        let slice_type = match read_ue(&mut reader) {
            Ok(v) => v,
            Err(e) => { return Err(e); },
        };
        let pic_parameter_set_id = match read_ue(&mut reader) {
            Ok(v) => v,
            Err(e) => { return Err(e); },
        };
        proof { reader.lemma_pos_le_len(); }
        let ghost p3 = reader.pos();
        let frame_num = match reader.read_bits(4) {
            Some(v) => v,
            None => { return Err(ParseError::EndOfStream); },
        };
        proof {
            reader.lemma_pos_le_len();
            let sub = reader.bits().subrange(p3, p3 + 4);
            assert(sub.len() == 4);
            crate::bitio::lemma_bits_val_bound(sub);
            vstd::arithmetic::power2::lemma2_to64();
            assert(frame_num < 16);
        }
        let off = reader.tell();
        Ok(SliceHeader {
            first_mb_in_slice,
            slice_type,
            pic_parameter_set_id,
            frame_num,
            data,
            data_offset_byte: off.0,
            data_offset_bit: off.1,
        })
    }

    /// The serialized bits of this header: the three `ue(v)` fields,
    /// four bits of `frame_num`, then the retained tail unchanged.
    pub open spec fn sp_bits(&self) -> Seq<bool> {
        ue_bits(self.first_mb_in_slice as nat)
            + ue_bits(self.slice_type as nat)
            + ue_bits(self.pic_parameter_set_id as nat)
            + uint_bits(self.frame_num as nat, 4)
            + self.data_bits().skip(self.tail_pos())
    }

    /// Serialize: the fields, then the retained tail, padded with zero
    /// bits to a whole byte.
    pub fn to_bytes(&self) -> (r: Vec<u8>)
        requires self.wf()
        ensures bytes_bits(r@) == self.sp_bits()
            + Seq::new(BitWriter::align_pad(self.sp_bits().len() as int) as nat,
                |i: int| false)
    {
        let mut writer = BitWriter::new();
        write_ue(&mut writer, self.first_mb_in_slice);
        write_ue(&mut writer, self.slice_type);
        write_ue(&mut writer, self.pic_parameter_set_id);
        proof {
            vstd::arithmetic::power2::lemma2_to64();
        }
        writer.write_bits(4, self.frame_num);
        let mut data2: Vec<u8> = Vec::new();
        let mut i: usize = 0;
        while i < self.data.len()
            invariant i <= self.data@.len(), data2@ == self.data@.subrange(0, i as int),
            decreases self.data@.len() - i,
        {
            data2.push(self.data[i]);
            proof {
                assert(self.data@.subrange(0, i as int).push(self.data@[i as int])
                    =~= self.data@.subrange(0, i + 1));
            }
            i = i + 1;
        }
        proof { assert(data2@ =~= self.data@); }
        let mut reader = BitReader::new(data2);
        reader.seek(self.data_offset_byte, self.data_offset_bit);
        let ghost head = writer.bits();
        let ghost tail_all = self.data_bits().skip(self.tail_pos());
        proof {
            assert(writer.bits() + tail_all.subrange(0, 0) =~= head);
        }
        loop
            invariant
                writer.wf(),
                reader.wf(),
                reader.bits() == self.data_bits(),
                tail_all == self.data_bits().skip(self.tail_pos()),
                0 <= self.tail_pos() <= reader.pos() <= reader.bits().len(),
                writer.bits() == head + tail_all.subrange(0, reader.pos() - self.tail_pos()),
            ensures
                writer.wf(),
                writer.bits() == head + tail_all,
            decreases reader.bits().len() - reader.pos(),
        {
            proof { reader.lemma_pos_le_len(); }
            match reader.read_bit() {
                None => {
                    proof {
                        assert(tail_all.subrange(0, tail_all.len() as int) =~= tail_all);
                    }
                    break;
                },
                Some(b) => {
                    let ghost w0 = writer.bits();
                    let ghost done = reader.pos() - 1 - self.tail_pos();
                    writer.write_bit(b);
                    proof {
                        assert(tail_all[done] == b);
                        assert(tail_all.subrange(0, done).push(b)
                            =~= tail_all.subrange(0, done + 1));
                        assert(w0 + seq![b]
                            =~= head + tail_all.subrange(0, done + 1));
                    }
                },
            }
        }
        writer.byte_align();
        proof {
            assert(head + tail_all =~= self.sp_bits());
        }
        writer.take_bytes()
    }
}

} // verus!
