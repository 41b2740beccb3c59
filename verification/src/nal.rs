//! The NAL/RBSP codec: emulation-prevention bytes and the one-byte
//! NAL unit header.

use vstd::prelude::*;
use crate::h264::NALUnitType;
use crate::parse_h264::ParseError;

verus! {

/// The RBSP that a NAL payload stands for, scanning with `z` zero
/// bytes already seen: an `0x03` after two zeros is dropped.
pub open spec fn sp_unescape_z(s: Seq<u8>, z: nat) -> Seq<u8>
    decreases s.len()
{
    if s.len() == 0 {
        Seq::empty()
    } else if z >= 2 && s[0] == 3 {
        sp_unescape_z(s.skip(1), 0)
    } else {
        seq![s[0]] + sp_unescape_z(s.skip(1), if s[0] == 0 { z + 1 } else { 0nat })
    }
}

/// The RBSP that a NAL payload stands for.
pub open spec fn sp_unescape(s: Seq<u8>) -> Seq<u8> {
    sp_unescape_z(s, 0)
}

/// The NAL payload encoding an RBSP, scanning with `z` zero bytes
/// already emitted: after two zeros, a byte of at most `0x03` gets an
/// `0x03` in front.
pub open spec fn sp_escape_z(s: Seq<u8>, z: nat) -> Seq<u8>
    decreases s.len()
{
    if s.len() == 0 {
        Seq::empty()
    } else if z >= 2 && s[0] <= 3 {
        seq![3u8, s[0]] + sp_escape_z(s.skip(1), if s[0] == 0 { 1nat } else { 0nat })
    } else {
        seq![s[0]] + sp_escape_z(s.skip(1), if s[0] == 0 { z + 1 } else { 0nat })
    }
}

/// The NAL payload encoding an RBSP.
pub open spec fn sp_escape(s: Seq<u8>) -> Seq<u8> {
    sp_escape_z(s, 0)
}

/// Decoding an encoded payload restores the bytes, whatever the zero
/// count both scans start from.
pub proof fn lemma_escape_unescape_z(s: Seq<u8>, z: nat)
    ensures sp_unescape_z(sp_escape_z(s, z), z) == s
    decreases s.len()
{
    if s.len() == 0 {
        assert(sp_unescape_z(sp_escape_z(s, z), z) =~= s);
    } else {
        let b = s[0];
        let rest = s.skip(1);
        if z >= 2 && b <= 3 {
            let z2: nat = if b == 0 { 1nat } else { 0nat };
            lemma_escape_unescape_z(rest, z2);
            let enc = seq![3u8, b] + sp_escape_z(rest, z2);
            let tail1 = seq![b] + sp_escape_z(rest, z2);
            assert(enc.skip(1) =~= tail1);
            assert(tail1.skip(1) =~= sp_escape_z(rest, z2));
            assert(enc[0] == 3);
            assert(sp_unescape_z(enc, z) == sp_unescape_z(tail1, 0));
            assert(tail1[0] == b);
            assert(sp_unescape_z(tail1, 0)
                == seq![b] + sp_unescape_z(sp_escape_z(rest, z2), z2));
            assert(seq![b] + rest =~= s);
        } else {
            let z2: nat = if b == 0 { z + 1 } else { 0nat };
            lemma_escape_unescape_z(rest, z2);
            let enc = seq![b] + sp_escape_z(rest, z2);
            assert(enc.skip(1) =~= sp_escape_z(rest, z2));
            assert(seq![b] + rest =~= s);
        }
    }
}

/// Decoding an encoded payload restores the bytes.
pub proof fn lemma_escape_unescape(s: Seq<u8>)
    ensures sp_unescape(sp_escape(s)) == s
{
    lemma_escape_unescape_z(s, 0);
}

/// Strip emulation-prevention bytes: an `0x03` after two zero bytes is
/// dropped.
pub fn decode_nal_to_rbsp(bytes: &[u8]) -> (r: Vec<u8>)
    ensures r@ == sp_unescape(bytes@)
{
    let mut rbsp: Vec<u8> = Vec::new();
    let mut i: usize = 0;
    let mut num_zeros: usize = 0;
    proof {
        assert(bytes@.skip(0) =~= bytes@);
    }
    while i < bytes.len()
        invariant
            i <= bytes@.len(),
            num_zeros <= i,
            rbsp@ + sp_unescape_z(bytes@.skip(i as int), num_zeros as nat) == sp_unescape(bytes@),
        decreases bytes@.len() - i,
    {
        let b = bytes[i];
        let ghost rest = bytes@.skip(i as int);
        proof {
            assert(rest[0] == b);
            assert(rest.skip(1) =~= bytes@.skip(i + 1));
        }
        if num_zeros >= 2 && b == 3 {
            num_zeros = 0;
        } else {
            rbsp.push(b);
            if b == 0 {
                num_zeros = num_zeros + 1;
            } else {
                num_zeros = 0;
            }
            proof {
                assert(rbsp@ =~= (rbsp@.drop_last() + seq![b]));
                assert(rbsp@.drop_last() + (seq![b] + sp_unescape_z(bytes@.skip(i + 1),
                    if b == 0 { (num_zeros - 1 + 1) as nat } else { 0nat }))
                    =~= rbsp@ + sp_unescape_z(bytes@.skip(i + 1),
                        if b == 0 { (num_zeros - 1 + 1) as nat } else { 0nat }));
            }
        }
        i = i + 1;
    }
    proof {
        assert(bytes@.skip(bytes@.len() as int) =~= Seq::<u8>::empty());
        assert(rbsp@ + Seq::<u8>::empty() =~= rbsp@);
    }
    rbsp
}

/// Insert emulation-prevention bytes: after two zero bytes, an `0x03`
/// goes in front of any byte of at most `0x03`.
pub fn encode_rbsp_to_nal(bytes: &[u8]) -> (r: Vec<u8>)
    ensures r@ == sp_escape(bytes@)
{
    let mut nal: Vec<u8> = Vec::new();
    let mut i: usize = 0;
    let mut num_zeros: usize = 0;
    proof {
        assert(bytes@.skip(0) =~= bytes@);
    }
    while i < bytes.len()
        invariant
            i <= bytes@.len(),
            num_zeros <= i,
            nal@ + sp_escape_z(bytes@.skip(i as int), num_zeros as nat) == sp_escape(bytes@),
        decreases bytes@.len() - i,
    {
        let b = bytes[i];
        let ghost rest = bytes@.skip(i as int);
        let ghost before = nal@;
        proof {
            assert(rest[0] == b);
            assert(rest.skip(1) =~= bytes@.skip(i + 1));
        }
        if num_zeros >= 2 && b <= 3 {
            nal.push(3);
            nal.push(b);
            num_zeros = if b == 0 { 1 } else { 0 };
            proof {
                assert(nal@ =~= before + seq![3u8, b]);
                assert(before + (seq![3u8, b] + sp_escape_z(bytes@.skip(i + 1),
                    num_zeros as nat))
                    =~= nal@ + sp_escape_z(bytes@.skip(i + 1), num_zeros as nat));
            }
        } else {
            nal.push(b);
            num_zeros = if b == 0 { num_zeros + 1 } else { 0 };
            proof {
                assert(nal@ =~= before + seq![b]);
                assert(before + (seq![b] + sp_escape_z(bytes@.skip(i + 1), num_zeros as nat))
                    =~= nal@ + sp_escape_z(bytes@.skip(i + 1), num_zeros as nat));
            }
        }
        i = i + 1;
    }
    proof {
        assert(bytes@.skip(bytes@.len() as int) =~= Seq::<u8>::empty());
        assert(nal@ + Seq::<u8>::empty() =~= nal@);
    }
    nal
}

/// A parsed NAL unit: its priority, its type and its raw byte sequence
/// payload.  Emulation-prevention bytes live only in the serialized
/// form, never in `rbsp`.
#[derive(Debug)]
pub struct NalUnit {
    pub nal_ref_idc: u8,
    pub nal_unit_type: NALUnitType,
    pub rbsp: Vec<u8>,
}

/// What parsing a serialized NAL unit yields: the priority bits, the
/// type and the unescaped payload.
pub open spec fn sp_nal_from_bytes(s: Seq<u8>)
    -> Result<(u8, NALUnitType, Seq<u8>), ParseError>
{
    if s.len() == 0 {
        Err(ParseError::EndOfStream)
    } else {
        let b = s[0];
        let code = b % 32;
        if b / 128 != 0 {
            // forbidden_zero_bit set
            Err(ParseError::InvalidData)
        } else if code == 14 || code == 20 || code == 21 {
            Err(ParseError::Unimplemented)
        } else {
            match NALUnitType::sp_from_code(code) {
                None => Err(ParseError::InvalidData),
                Some(t) => Ok((((b / 32) % 4) as u8, t, sp_unescape(s.skip(1)))),
            }
        }
    }
}

impl NalUnit {
    /// A well-formed unit: the priority fits its two header bits.
    pub open spec fn wf(&self) -> bool {
        self.nal_ref_idc < 4
    }

    /// Parse a serialized NAL unit.  The extension types 14, 20 and 21
    /// are unsupported; a set forbidden bit or an unknown type code is
    /// invalid.
    pub fn from_bytes(bytes: &[u8]) -> (r: Result<Self, ParseError>)
        ensures
            match r {
                Ok(u) => {
                    &&& sp_nal_from_bytes(bytes@)
                        == Ok::<_, ParseError>((u.nal_ref_idc, u.nal_unit_type, u.rbsp@))
                    &&& u.wf()
                },
                Err(e) => sp_nal_from_bytes(bytes@) == Err::<(u8, NALUnitType, Seq<u8>), _>(e),
            },
    {
        if bytes.len() == 0 {
            return Err(ParseError::EndOfStream);
        }
        let b = bytes[0];
        let code = b % 32;
        if b / 128 != 0 {
            return Err(ParseError::InvalidData);
        }
        if code == 14 || code == 20 || code == 21 {
            return Err(ParseError::Unimplemented);
        }
        let t = match NALUnitType::from_code(code) {
            None => {
                return Err(ParseError::InvalidData);
            },
            Some(t) => t,
        };
        let mut tail: Vec<u8> = Vec::new();
        let mut i: usize = 1;
        while i < bytes.len()
            invariant
                1 <= i <= bytes@.len(),
                tail@ == bytes@.subrange(1, i as int),
            decreases bytes@.len() - i,
        {
            tail.push(bytes[i]);
            proof {
                assert(bytes@.subrange(1, i as int).push(bytes@[i as int])
                    =~= bytes@.subrange(1, i + 1));
            }
            i = i + 1;
        }
        proof {
            assert(tail@ =~= bytes@.skip(1));
        }
        let rbsp = decode_nal_to_rbsp(tail.as_slice());
        Ok(NalUnit { nal_ref_idc: (b / 32) % 4, nal_unit_type: t, rbsp })
    }

    /// The serialized form of this unit: its one-byte header, then the
    /// escaped payload.
    pub open spec fn sp_to_bytes(&self) -> Seq<u8> {
        seq![(self.nal_ref_idc * 32 + self.nal_unit_type.sp_code()) as u8]
            + sp_escape(self.rbsp@)
    }

    /// Serialize this unit.
    pub fn to_bytes(&self) -> (r: Vec<u8>)
        requires self.wf()
        ensures r@ == self.sp_to_bytes()
    {
        let code = self.nal_unit_type.code();
        let header: u8 = self.nal_ref_idc * 32 + code;
        let mut out: Vec<u8> = Vec::new();
        out.push(header);
        let mut enc = encode_rbsp_to_nal(self.rbsp.as_slice());
        out.append(&mut enc);
        proof {
            assert(out@ =~= self.sp_to_bytes());
        }
        out
    }

    /// A fresh copy of this unit.
    pub fn duplicate(&self) -> (r: Self)
        ensures r.nal_ref_idc == self.nal_ref_idc,
            r.nal_unit_type == self.nal_unit_type,
            r.rbsp@ == self.rbsp@,
    {
        let mut rbsp: Vec<u8> = Vec::new();
        let mut i: usize = 0;
        while i < self.rbsp.len()
            invariant i <= self.rbsp@.len(), rbsp@ == self.rbsp@.subrange(0, i as int),
            decreases self.rbsp@.len() - i,
        {
            rbsp.push(self.rbsp[i]);
            proof {
                assert(self.rbsp@.subrange(0, i as int).push(self.rbsp@[i as int])
                    =~= self.rbsp@.subrange(0, i + 1));
            }
            i = i + 1;
        }
        proof { assert(rbsp@ =~= self.rbsp@); }
        NalUnit {
            nal_ref_idc: self.nal_ref_idc,
            nal_unit_type: self.nal_unit_type,
            rbsp,
        }
    }
}

/// Serializing a well-formed unit of a supported type and parsing the
/// result yields the unit back.
pub proof fn lemma_nal_roundtrip(u: NalUnit)
    requires
        u.wf(),
        u.nal_unit_type.sp_code() != 14,
        u.nal_unit_type.sp_code() != 20,
        u.nal_unit_type.sp_code() != 21,
    ensures sp_nal_from_bytes(u.sp_to_bytes())
        == Ok::<_, ParseError>((u.nal_ref_idc, u.nal_unit_type, u.rbsp@))
{
    let s = u.sp_to_bytes();
    let code = u.nal_unit_type.sp_code();
    let b = s[0];
    assert(b == u.nal_ref_idc * 32 + code);
    assert(b % 32 == code && (b / 32) % 4 == u.nal_ref_idc && b / 128 == 0) by {
        let r = u.nal_ref_idc;
        let c = code;
        assert((((r * 32 + c) as u8) % 32 == c
            && (((r * 32 + c) as u8) / 32) % 4 == r
            && ((r * 32 + c) as u8) / 128 == 0)) by (bit_vector)
            requires r < 4u8, c < 32u8,
        ;
    }
    u.nal_unit_type.lemma_code_roundtrip();
    assert(s.skip(1) =~= sp_escape(u.rbsp@));
    lemma_escape_unescape(u.rbsp@);
}

/// No byte of an escaped payload smaller than the emulation-prevention
/// byte follows two zero bytes: no start-code window survives.
pub open spec fn sp_no_start_code(out: Seq<u8>) -> bool {
    forall|i: int| 0 <= i && i + 2 < out.len() && (#[trigger] out[i]) == 0
        && out[i + 1] == 0 ==> out[i + 2] >= 3
}

/// Inside the escape scan the zero count never exceeds two, so the
/// window property holds even with the pending zeros put back in
/// front.
proof fn lemma_escape_window(s: Seq<u8>, z: nat)
    requires z <= 2
    ensures sp_no_start_code(crate::nal_iterator::zero_bytes(z) + sp_escape_z(s, z))
    decreases s.len()
{
    let padded = crate::nal_iterator::zero_bytes(z) + sp_escape_z(s, z);
    if s.len() == 0 {
        assert(padded.len() <= 2);
    } else {
        let b = s[0];
        let rest = s.skip(1);
        if z >= 2 && b <= 3 {
            let z2: nat = if b == 0 { 1nat } else { 0nat };
            lemma_escape_window(rest, z2);
            let padded2 = crate::nal_iterator::zero_bytes(z2) + sp_escape_z(rest, z2);
            assert(padded =~= seq![0u8, 0u8, 3u8, b] + sp_escape_z(rest, z2));
            assert forall|i: int| 0 <= i && i + 2 < padded.len()
                && (#[trigger] padded[i]) == 0 && padded[i + 1] == 0
                implies padded[i + 2] >= 3
            by {
                if i <= 2 {
                    assert(padded[2] == 3);
                } else {
                    // the window lies inside the padded remainder
                    if b == 0 {
                        assert(padded2 =~= seq![b] + sp_escape_z(rest, z2));
                        assert(padded[i] == padded2[i - 3]);
                        assert(padded[i + 1] == padded2[i - 2]);
                        assert(padded[i + 2] == padded2[i - 1]);
                    } else {
                        if i == 3 {
                            assert(padded[i] == b && b != 0);
                        } else {
                            assert(padded[i] == padded2[i - 4]);
                            assert(padded[i + 1] == padded2[i - 3]);
                            assert(padded[i + 2] == padded2[i - 2]);
                        }
                    }
                }
            }
        } else {
            let z2: nat = if b == 0 { z + 1 } else { 0nat };
            lemma_escape_window(rest, z2);
            let padded2 = crate::nal_iterator::zero_bytes(z2) + sp_escape_z(rest, z2);
            if b == 0 {
                assert(padded =~= padded2);
            } else {
                assert(padded =~= crate::nal_iterator::zero_bytes(z) + seq![b]
                    + sp_escape_z(rest, 0));
                assert forall|i: int| 0 <= i && i + 2 < padded.len()
                    && (#[trigger] padded[i]) == 0 && padded[i + 1] == 0
                    implies padded[i + 2] >= 3
                by {
                    if i + 2 < z {
                        assert(false);
                    } else if i + 2 == z {
                        // the window ends on b itself: only with two
                        // pending zeros, which the scan only keeps for
                        // bytes above the escape threshold
                        assert(padded[i + 2] == b);
                        assert(z >= 2 && b > 3);
                    } else if i + 1 == z {
                        assert(padded[i + 1] == b && b != 0);
                    } else if i == z {
                        assert(padded[i] == b && b != 0);
                    } else {
                        assert(padded[i] == padded2[i - z - 1]);
                        assert(padded[i + 1] == padded2[i - z]);
                        assert(padded[i + 2] == padded2[i - z + 1]);
                    }
                }
            }
        }
    }
}

/// An escaped payload holds no start-code window: wherever two zero
/// bytes are followed by a third byte, that byte is at least the
/// emulation-prevention byte.
pub proof fn lemma_escape_no_start_code(s: Seq<u8>)
    ensures sp_no_start_code(sp_escape(s))
{
    lemma_escape_window(s, 0);
    assert(crate::nal_iterator::zero_bytes(0) + sp_escape_z(s, 0) =~= sp_escape(s));
}

} // verus!
