//! Exp-Golomb codes and the small shared bitstream readers of the
//! H.264 syntax: `ue(v)`, `se(v)`, RBSP trailing bits and the
//! `more_rbsp_data` test.

use vstd::prelude::*;
use vstd::arithmetic::power2::*;
use crate::bitio::{BitReader, BitWriter, bits_val, uint_bits, pow2_u32,
    lemma_bits_val_bound, lemma_bits_val_uint_bits, lemma_uint_bits_of_val,
    lemma_uint_bits_zero};

verus! {

/// Why a parse failed.
#[derive(Clone, Copy, Debug, PartialEq, Eq, Structural)]
pub enum ParseError {
    /// The input ended before the field was complete.
    EndOfStream,
    /// The input violates the syntax, or a value does not fit its field.
    InvalidData,
    /// The input uses a feature this library does not support.
    Unimplemented,
    /// An I/O fault; never produced by the in-memory readers here.
    Io,
}

/// Length of the run of zero bits starting at `pos`, up to the first
/// one bit; runs to the end of the input if no one bit follows.
pub open spec fn zero_run(bits: Seq<bool>, pos: int) -> int
    recommends 0 <= pos <= bits.len()
    decreases bits.len() - pos when 0 <= pos <= bits.len()
{
    if pos >= bits.len() {
        0
    } else if bits[pos] {
        0
    } else {
        1 + zero_run(bits, pos + 1)
    }
}

pub proof fn lemma_zero_run(bits: Seq<bool>, pos: int)
    requires 0 <= pos <= bits.len()
    ensures
        0 <= zero_run(bits, pos) <= bits.len() - pos,
        forall|i: int| pos <= i < pos + zero_run(bits, pos) ==> !bits[i],
        pos + zero_run(bits, pos) < bits.len() ==> bits[pos + zero_run(bits, pos)],
    decreases bits.len() - pos
{
    if pos < bits.len() && !bits[pos] {
        lemma_zero_run(bits, pos + 1);
    }
}

/// A position whose next bits are `k` zeros then a one has a zero run
/// of exactly `k`.
pub proof fn lemma_zero_run_exact(bits: Seq<bool>, pos: int, k: int)
    requires
        0 <= pos,
        0 <= k,
        pos + k < bits.len(),
        forall|i: int| pos <= i < pos + k ==> !bits[i],
        bits[pos + k],
    ensures zero_run(bits, pos) == k
    decreases k
{
    if k > 0 {
        lemma_zero_run_exact(bits, pos + 1, k - 1);
    }
}

/// What reading `ue(v)` at `pos` yields: the decoded value and the
/// position after it.
pub open spec fn sp_ue(bits: Seq<bool>, pos: int) -> Result<(nat, int), ParseError>
    recommends 0 <= pos <= bits.len()
{
    let k = zero_run(bits, pos);
    if pos + k == bits.len() {
        Err(ParseError::EndOfStream)
    } else if k > 31 {
        Err(ParseError::Unimplemented)
    } else if pos + 2 * k + 1 > bits.len() {
        Err(ParseError::EndOfStream)
    } else {
        Ok((
            (pow2(k as nat) - 1 + bits_val(bits.subrange(pos + k + 1, pos + 2 * k + 1))) as nat,
            pos + 2 * k + 1,
        ))
    }
}

/// `floor(log2(w))` for `w >= 1`.
pub open spec fn log2(w: nat) -> nat
    recommends w >= 1
    decreases w
{
    if w < 2 {
        0
    } else {
        1 + log2(w / 2)
    }
}

pub proof fn lemma_log2(w: nat)
    requires w >= 1
    ensures pow2(log2(w)) <= w < pow2(log2(w) + 1)
    decreases w
{
    if w < 2 {
        lemma2_to64();
    } else {
        lemma_log2(w / 2);
        lemma_pow2_unfold(log2(w));
        lemma_pow2_unfold(log2(w) + 1);
        vstd::arithmetic::div_mod::lemma_fundamental_div_mod(w as int, 2);
    }
}

/// `log2` is determined by its bracketing property.
pub proof fn lemma_log2_unique(w: nat, k: nat)
    requires w >= 1, pow2(k) <= w < pow2(k + 1)
    ensures log2(w) == k
{
    lemma_log2(w);
    let m = log2(w);
    if m < k {
        if m + 1 < k {
            lemma_pow2_strictly_increases(m + 1, k);
        }
    }
    if m > k {
        if k + 1 < m {
            lemma_pow2_strictly_increases(k + 1, m);
        }
    }
}

/// The `ue(v)` encoding of `v`: `k` zeros, a one, then the low `k`
/// bits of `v + 1`, where `k = floor(log2(v + 1))`.
pub open spec fn ue_bits(v: nat) -> Seq<bool> {
    let k = log2(v + 1);
    Seq::new(k, |i: int| false) + seq![true] + uint_bits((v + 1 - pow2(k)) as nat, k)
}

/// Reading `ue` from its own encoding yields the value back, whatever
/// follows the encoding.
pub proof fn lemma_ue_roundtrip(prefix: Seq<bool>, v: nat, rest: Seq<bool>)
    requires v + 1 < pow2(32)
    ensures ({
        let bits = prefix + ue_bits(v) + rest;
        sp_ue(bits, prefix.len() as int)
            == Ok::<(nat, int), ParseError>((v, prefix.len() + ue_bits(v).len() as int))
    })
{
    let k = log2(v + 1);
    lemma_log2(v + 1);
    let enc = ue_bits(v);
    let bits = prefix + enc + rest;
    let pos = prefix.len() as int;
    assert(k < 32) by {
        if k >= 32 {
            if 32 < k {
                lemma_pow2_strictly_increases(32, k);
            }
        }
    }
    let tail = uint_bits((v + 1 - pow2(k)) as nat, k);
    assert(enc.len() == 2 * k + 1);
    assert forall|i: int| pos <= i < pos + k implies !bits[i] by {
        assert(bits[i] == enc[i - pos]);
    }
    assert(bits[pos + k] == enc[k as int]);
    assert(bits[pos + k]);
    lemma_zero_run_exact(bits, pos, k as int);
    let sub = bits.subrange(pos + k + 1, pos + 2 * k + 1);
    assert(sub =~= tail) by {
        assert forall|i: int| 0 <= i < k implies sub[i] == tail[i] by {
            assert(bits[pos + k + 1 + i] == enc[k + 1 + i]);
        }
    }
    lemma_pow2_unfold(k + 1);
    lemma_bits_val_uint_bits((v + 1 - pow2(k)) as nat, k);
    assert(pow2(k) - 1 + (v + 1 - pow2(k)) == v);
}

/// The `ue` code is canonical: the bits a successful read consumed are
/// exactly the encoding of the value it returned.
pub proof fn lemma_ue_canonical(bits: Seq<bool>, pos: int)
    requires
        0 <= pos <= bits.len(),
        sp_ue(bits, pos) is Ok,
    ensures ({
        let (v, end) = sp_ue(bits, pos)->Ok_0;
        &&& bits.subrange(pos, end) == ue_bits(v)
        &&& end - pos == ue_bits(v).len()
        &&& v + 1 < pow2(32)
    })
{
    let k = zero_run(bits, pos);
    lemma_zero_run(bits, pos);
    let (v, end) = sp_ue(bits, pos)->Ok_0;
    let tail = bits.subrange(pos + k + 1, pos + 2 * k + 1);
    lemma_bits_val_bound(tail);
    assert(v == pow2(k as nat) - 1 + bits_val(tail));
    lemma_pow2_unfold((k + 1) as nat);
    assert(pow2(k as nat) <= v + 1 < pow2((k + 1) as nat));
    lemma_log2_unique(v + 1, k as nat);
    assert(v + 1 < pow2(32)) by {
        if k + 1 < 32 {
            lemma_pow2_strictly_increases((k + 1) as nat, 32);
        }
    }
    lemma_uint_bits_of_val(tail);
    assert((v + 1 - pow2(k as nat)) as nat == bits_val(tail));
    assert(bits.subrange(pos, end) =~= ue_bits(v));
}

/// Read an unsigned Exp-Golomb coded value.
///
/// More than 31 leading zero bits is unsupported.
pub fn read_ue(reader: &mut BitReader) -> (r: Result<u32, ParseError>)
    requires old(reader).wf()
    ensures
        final(reader).wf(),
        final(reader).bits() == old(reader).bits(),
        match r {
            Ok(v) => {
                &&& sp_ue(old(reader).bits(), old(reader).pos())
                    == Ok::<(nat, int), ParseError>((v as nat, final(reader).pos()))
                &&& v <= 0xFFFF_FFFE
            },
            Err(e) => {
                &&& sp_ue(old(reader).bits(), old(reader).pos())
                    == Err::<(nat, int), ParseError>(e)
                &&& e != ParseError::Io
            },
        },
{
    let ghost bits = reader.bits();
    let ghost p0 = reader.pos();
    proof {
        reader.lemma_pos_le_len();
        lemma_zero_run(bits, p0);
    }
    let mut k: usize = 0;
    loop
        invariant_except_break
            reader.pos() == p0 + k,
            k <= 32,
        invariant
            reader.wf(),
            reader.bits() == bits,
            bits == old(reader).bits(),
            p0 == old(reader).pos(),
            0 <= p0 <= bits.len(),
            k <= zero_run(bits, p0),
            forall|i: int| p0 <= i < p0 + k ==> !bits[i],
        ensures
            reader.wf(),
            reader.bits() == bits,
            k == zero_run(bits, p0),
            k <= 31,
            p0 + k < bits.len(),
            reader.pos() == p0 + k + 1,
        decreases bits.len() - reader.pos(),
    {
        proof { reader.lemma_pos_le_len(); }
        if k == 32 {
            // the run is at least 32 zeros: scan to the end or to a one bit
            loop
                invariant
                    reader.wf(),
                    reader.bits() == bits,
                    bits == old(reader).bits(),
                    p0 == old(reader).pos(),
                    0 <= p0,
                    p0 + 32 <= reader.pos() <= bits.len(),
                    forall|i: int| p0 <= i < reader.pos() ==> !bits[i],
                decreases bits.len() - reader.pos(),
            {
                proof { reader.lemma_pos_le_len(); }
                match reader.read_bit() {
                    None => {
                        proof {
                            lemma_zero_run(bits, p0);
                            if zero_run(bits, p0) < bits.len() - p0 {
                                assert(bits[p0 + zero_run(bits, p0)]);
                            }
                        }
                        return Err(ParseError::EndOfStream);
                    },
                    Some(b) => {
                        if b {
                            proof {
                                lemma_zero_run_exact(bits, p0, reader.pos() - 1 - p0);
                            }
                            return Err(ParseError::Unimplemented);
                        }
                    },
                }
            }
        }
        match reader.read_bit() {
            None => {
                proof {
                    lemma_zero_run(bits, p0);
                    if zero_run(bits, p0) > k {
                        assert(p0 + k < bits.len());
                    }
                }
                return Err(ParseError::EndOfStream);
            },
            Some(b) => {
                if b {
                    proof {
                        lemma_zero_run_exact(bits, p0, k as int);
                    }
                    break;
                }
                k = k + 1;
                proof {
                    lemma_zero_run(bits, p0);
                    if k > zero_run(bits, p0) {
                        assert(bits[p0 + zero_run(bits, p0)]);
                    }
                }
            },
        }
    }
    match reader.read_bits(k) {
        None => Err(ParseError::EndOfStream),
        Some(low) => {
            let p = pow2_u32(k);
            proof {
                lemma_bits_val_bound(bits.subrange(p0 + k + 1, p0 + 2 * k + 1));
                if (k as nat) < 31 {
                    lemma_pow2_strictly_increases(k as nat, 31);
                }
                lemma2_to64();
            }
            Ok(p - 1 + low)
        },
    }
}

/// Append the `ue(v)` encoding of `value`.
pub fn write_ue(writer: &mut BitWriter, value: u32)
    requires old(writer).wf(), value <= 0xFFFF_FFFE
    ensures final(writer).wf(),
        final(writer).bits() == old(writer).bits() + ue_bits(value as nat)
{
    let w: u64 = value as u64 + 1;
    // find k with pow2(k) <= value + 1 < pow2(k + 1)
    let mut k: usize = 0;
    let mut p: u64 = 1;
    proof { lemma2_to64(); }
    while 2 * p <= w
        invariant
            p as nat == pow2(k as nat),
            p <= w <= 0xFFFF_FFFF,
            k <= 32,
        decreases w - p,
    {
        proof {
            lemma_pow2_unfold((k + 1) as nat);
            if k + 1 > 32 {
                lemma_pow2_strictly_increases(32, (k + 1) as nat);
                lemma2_to64();
            }
            lemma_pow2_pos(k as nat);
        }
        p = 2 * p;
        k = k + 1;
    }
    proof {
        lemma_pow2_unfold((k + 1) as nat);
        lemma_log2_unique(w as nat, k as nat);
        assert(k < 32) by {
            if k == 32 {
                lemma2_to64();
                lemma2_to64_rest();
            }
        }
    }
    let ghost before = writer.bits();
    writer.write_bits(k, 0);
    proof { lemma_uint_bits_zero(k as nat); }
    writer.write_bit(true);
    let low = (w - p) as u32;
    proof { lemma_pow2_unfold((k + 1) as nat); }
    writer.write_bits(k, low);
    proof {
        assert(writer.bits() =~= before + ue_bits(value as nat)) by {
            assert(uint_bits(0, k as nat) =~= Seq::new(k as nat, |i: int| false));
        }
    }
}

/// The signed value an unsigned Exp-Golomb code word stands for.
pub open spec fn sp_golomb_signed(v: nat) -> int {
    if v % 2 == 1 {
        ((v + 1) / 2) as int
    } else {
        -((v / 2) as int)
    }
}

/// Map an unsigned Exp-Golomb code word to its signed value.
pub fn golomb_to_signed(val: u32) -> (r: i32)
    requires val <= 0xFFFF_FFFE
    ensures r as int == sp_golomb_signed(val as nat)
{
    if val % 2 == 1 {
        ((val / 2) + 1) as i32
    } else {
        -((val / 2) as i32)
    }
}

/// What reading `se(v)` at `pos` yields.
pub open spec fn sp_se(bits: Seq<bool>, pos: int) -> Result<(int, int), ParseError> {
    match sp_ue(bits, pos) {
        Ok((v, end)) => Ok((sp_golomb_signed(v), end)),
        Err(e) => Err(e),
    }
}

/// Read a signed Exp-Golomb coded value.
pub fn read_se(reader: &mut BitReader) -> (r: Result<i32, ParseError>)
    requires old(reader).wf()
    ensures
        final(reader).wf(),
        final(reader).bits() == old(reader).bits(),
        match r {
            Ok(v) => sp_se(old(reader).bits(), old(reader).pos())
                == Ok::<(int, int), ParseError>((v as int, final(reader).pos())),
            Err(e) => {
                &&& sp_se(old(reader).bits(), old(reader).pos())
                    == Err::<(int, int), ParseError>(e)
                &&& e != ParseError::Io
            },
        },
{
    match read_ue(reader) {
        Ok(v) => Ok(golomb_to_signed(v)),
        Err(e) => Err(e),
    }
}

/// The unsigned code word for signed value `v`: positive `v` maps to
/// `2v - 1`, other `v` to `-2v`.
pub open spec fn sp_signed_to_golomb(v: int) -> nat {
    if v > 0 {
        (2 * v - 1) as nat
    } else {
        (-2 * v) as nat
    }
}

/// Append the `se(v)` encoding of `value`.
///
/// `i32::MIN` would need a 33-bit-prefix code and is left out.
pub fn write_se(writer: &mut BitWriter, value: i32)
    requires old(writer).wf(), value != i32::MIN
    ensures final(writer).wf(),
        final(writer).bits() == old(writer).bits()
            + ue_bits(sp_signed_to_golomb(value as int))
{
    let code: u32 = if value > 0 {
        2 * (value as u32) - 1
    } else {
        let mag = (-(value as i64)) as u32;
        2 * mag
    };
    write_ue(writer, code);
}

/// Decoding an encoded signed value yields it back.
pub proof fn lemma_se_roundtrip(v: int)
    ensures sp_golomb_signed(sp_signed_to_golomb(v)) == v
{
}

/// What reading the RBSP trailing bits at `pos` yields: a one bit then
/// zero bits up to the next byte boundary.
pub open spec fn sp_rbsp_trailing(bits: Seq<bool>, pos: int) -> Result<int, ParseError>
    recommends 0 <= pos <= bits.len()
{
    if pos >= bits.len() {
        Err(ParseError::EndOfStream)
    } else if !bits[pos] {
        Err(ParseError::InvalidData)
    } else {
        sp_rbsp_zeros(bits, pos + 1)
    }
}

pub open spec fn sp_rbsp_zeros(bits: Seq<bool>, pos: int) -> Result<int, ParseError>
    recommends 0 <= pos <= bits.len()
    decreases bits.len() - pos when 0 <= pos <= bits.len()
{
    if pos % 8 == 0 {
        Ok(pos)
    } else if pos >= bits.len() {
        Err(ParseError::EndOfStream)
    } else if bits[pos] {
        Err(ParseError::InvalidData)
    } else {
        sp_rbsp_zeros(bits, pos + 1)
    }
}

/// Read the RBSP trailing bits: a single one bit, then zero bits to the
/// next byte boundary; any other shape is invalid.
pub fn read_rbsp_trailing_bits(reader: &mut BitReader) -> (r: Result<(), ParseError>)
    requires old(reader).wf()
    ensures
        final(reader).wf(),
        final(reader).bits() == old(reader).bits(),
        match r {
            Ok(()) => {
                &&& sp_rbsp_trailing(old(reader).bits(), old(reader).pos())
                    == Ok::<int, ParseError>(final(reader).pos())
                &&& final(reader).pos() % 8 == 0
            },
            Err(e) => {
                &&& sp_rbsp_trailing(old(reader).bits(), old(reader).pos())
                    == Err::<int, ParseError>(e)
                &&& e != ParseError::Io
            },
        },
{
    let ghost bits = reader.bits();
    let ghost p0 = reader.pos();
    proof { reader.lemma_pos_le_len(); }
    match reader.read_bit() {
        None => {
            return Err(ParseError::EndOfStream);
        },
        Some(b) => {
            if !b {
                return Err(ParseError::InvalidData);
            }
        },
    }
    loop
        invariant
            reader.wf(),
            reader.bits() == bits,
            bits == old(reader).bits(),
            p0 == old(reader).pos(),
            0 <= reader.pos() <= bits.len(),
            sp_rbsp_zeros(bits, reader.pos()) == sp_rbsp_trailing(bits, p0),
        ensures
            reader.wf(),
            reader.bits() == bits,
            sp_rbsp_trailing(bits, p0) == Ok::<int, ParseError>(reader.pos()),
            reader.pos() % 8 == 0,
        decreases bits.len() - reader.pos(),
    {
        if reader.byte_aligned() {
            break;
        }
        proof { reader.lemma_pos_le_len(); }
        match reader.read_bit() {
            None => {
                return Err(ParseError::EndOfStream);
            },
            Some(b) => {
                if b {
                    return Err(ParseError::InvalidData);
                }
            },
        }
    }
    Ok(())
}

/// Append the RBSP trailing bits: a one bit, then zeros to the byte
/// boundary.
pub fn write_rbsp_trailing_bits(writer: &mut BitWriter)
    requires old(writer).wf()
    ensures
        final(writer).wf(),
        final(writer).bits().len() % 8 == 0,
        final(writer).bits() == old(writer).bits() + seq![true]
            + Seq::new(
                BitWriter::align_pad(old(writer).bits().len() as int + 1) as nat,
                |i: int| false),
{
    writer.write_bit(true);
    writer.byte_align();
}

/// Writing then reading the trailing bits succeeds and consumes them.
pub proof fn lemma_rbsp_trailing_roundtrip(bits: Seq<bool>, pos: int)
    requires
        0 <= pos < bits.len(),
        bits[pos],
        forall|i: int| pos < i < bits.len() ==> !bits[i],
        bits.len() % 8 == 0,
        bits.len() - pos <= 8,
    ensures sp_rbsp_trailing(bits, pos) == Ok::<int, ParseError>(bits.len() as int)
{
    lemma_rbsp_zeros_all_zero(bits, pos + 1);
}

proof fn lemma_rbsp_zeros_all_zero(bits: Seq<bool>, pos: int)
    requires
        0 < pos <= bits.len(),
        forall|i: int| pos <= i < bits.len() ==> !bits[i],
        bits.len() % 8 == 0,
        bits.len() - pos < 8,
    ensures sp_rbsp_zeros(bits, pos) == Ok::<int, ParseError>(bits.len() as int)
    decreases bits.len() - pos
{
    let len = bits.len() as int;
    vstd::arithmetic::div_mod::lemma_fundamental_div_mod(len, 8);
    if pos == len {
        assert(pos % 8 == 0);
    } else {
        assert(pos % 8 != 0) by {
            if pos % 8 == 0 {
                vstd::arithmetic::div_mod::lemma_fundamental_div_mod(pos, 8);
                assert(len - pos == 8 * (len / 8 - pos / 8));
                assert(len / 8 - pos / 8 >= 1);
            }
        }
        lemma_rbsp_zeros_all_zero(bits, pos + 1);
    }
}

/// Scan for a one bit strictly after the current position, consuming
/// the rest of the input.
fn scan_one_after(reader: &mut BitReader) -> (r: bool)
    requires old(reader).wf()
    ensures
        final(reader).wf(),
        final(reader).bits() == old(reader).bits(),
        r == exists|i: int| old(reader).pos() < i < old(reader).bits().len()
            && old(reader).bits()[i],
{
    let ghost bits = reader.bits();
    let ghost p0 = reader.pos();
    proof { reader.lemma_pos_le_len(); }
    if reader.read_bit().is_none() {
        return false;
    }
    loop
        invariant
            reader.wf(),
            reader.bits() == bits,
            bits == old(reader).bits(),
            p0 == old(reader).pos(),
            p0 < reader.pos() <= bits.len(),
            forall|i: int| p0 < i < reader.pos() ==> !bits[i],
        decreases bits.len() - reader.pos(),
    {
        proof { reader.lemma_pos_le_len(); }
        match reader.read_bit() {
            None => {
                proof {
                    assert(forall|i: int| p0 < i < bits.len() ==> !bits[i]);
                }
                return false;
            },
            Some(b) => {
                if b {
                    proof {
                        assert(p0 < reader.pos() - 1 < bits.len()
                            && bits[reader.pos() - 1]);
                    }
                    return true;
                }
            },
        }
    }
}

/// True when a one bit exists strictly after the current position:
/// the test the PPS parser uses for an optional final block.
pub fn more_rbsp_data(reader: &mut BitReader) -> (r: bool)
    requires old(reader).wf()
    ensures
        final(reader).wf(),
        final(reader).bits() == old(reader).bits(),
        final(reader).pos() == old(reader).pos(),
        r == exists|i: int| old(reader).pos() < i < old(reader).bits().len()
            && old(reader).bits()[i],
{
    let save = reader.tell();
    proof { reader.lemma_pos_le_len(); }
    let found = scan_one_after(reader);
    reader.seek(save.0, save.1);
    found
}

/// What reading one bit at `pos` yields.
pub open spec fn sp_read_bit(bits: Seq<bool>, pos: int) -> Result<(bool, int), ParseError> {
    if 0 <= pos < bits.len() {
        Ok((bits[pos], pos + 1))
    } else {
        Err(ParseError::EndOfStream)
    }
}

/// What reading `n` bits at `pos` yields: their big-endian value.
pub open spec fn sp_read_bits(bits: Seq<bool>, pos: int, n: int)
    -> Result<(nat, int), ParseError>
{
    if 0 <= pos && pos + n <= bits.len() {
        Ok((bits_val(bits.subrange(pos, pos + n)), pos + n))
    } else {
        Err(ParseError::EndOfStream)
    }
}

/// `ue(v)` restricted to values that fit a byte; larger values are
/// invalid where the syntax wants a byte-sized field.
pub open spec fn sp_ue_u8(bits: Seq<bool>, pos: int) -> Result<(nat, int), ParseError> {
    match sp_ue(bits, pos) {
        Ok((v, p)) => if v <= 255 { Ok((v, p)) } else { Err(ParseError::InvalidData) },
        Err(e) => Err(e),
    }
}

/// Read one bit, end of input being an error.
pub fn read_bit_r(reader: &mut BitReader) -> (r: Result<bool, ParseError>)
    requires old(reader).wf()
    ensures
        final(reader).wf(),
        final(reader).bits() == old(reader).bits(),
        match r {
            Ok(b) => sp_read_bit(old(reader).bits(), old(reader).pos())
                == Ok::<(bool, int), ParseError>((b, final(reader).pos())),
            Err(e) => sp_read_bit(old(reader).bits(), old(reader).pos())
                == Err::<(bool, int), ParseError>(e),
        },
{
    proof { reader.lemma_pos_le_len(); }
    match reader.read_bit() {
        Some(b) => Ok(b),
        None => Err(ParseError::EndOfStream),
    }
}

/// Read `n` bits as a big-endian value, end of input being an error.
pub fn read_bits_r(reader: &mut BitReader, n: usize) -> (r: Result<u32, ParseError>)
    requires old(reader).wf(), n <= 32
    ensures
        final(reader).wf(),
        final(reader).bits() == old(reader).bits(),
        match r {
            Ok(v) => {
                &&& sp_read_bits(old(reader).bits(), old(reader).pos(), n as int)
                    == Ok::<(nat, int), ParseError>((v as nat, final(reader).pos()))
                &&& (v as nat) < pow2(n as nat)
            },
            Err(e) => sp_read_bits(old(reader).bits(), old(reader).pos(), n as int)
                == Err::<(nat, int), ParseError>(e),
        },
{
    proof { reader.lemma_pos_le_len(); }
    let ghost p0 = reader.pos();
    match reader.read_bits(n) {
        Some(v) => {
            proof {
                lemma_bits_val_bound(old(reader).bits().subrange(p0, p0 + n));
            }
            Ok(v)
        },
        None => Err(ParseError::EndOfStream),
    }
}

/// Read `n <= 8` bits as a byte.
pub fn read_u8_bits(reader: &mut BitReader, n: usize) -> (r: Result<u8, ParseError>)
    requires old(reader).wf(), n <= 8
    ensures
        final(reader).wf(),
        final(reader).bits() == old(reader).bits(),
        match r {
            Ok(v) => sp_read_bits(old(reader).bits(), old(reader).pos(), n as int)
                == Ok::<(nat, int), ParseError>((v as nat, final(reader).pos())),
            Err(e) => sp_read_bits(old(reader).bits(), old(reader).pos(), n as int)
                == Err::<(nat, int), ParseError>(e),
        },
{
    match read_bits_r(reader, n) {
        Ok(v) => {
            proof {
                if (n as nat) < 8 {
                    lemma_pow2_strictly_increases(n as nat, 8);
                }
                lemma2_to64();
            }
            Ok(v as u8)
        },
        Err(e) => Err(e),
    }
}

/// Read a `ue(v)` value that must fit a byte.
pub fn read_ue_u8(reader: &mut BitReader) -> (r: Result<u8, ParseError>)
    requires old(reader).wf()
    ensures
        final(reader).wf(),
        final(reader).bits() == old(reader).bits(),
        match r {
            Ok(v) => sp_ue_u8(old(reader).bits(), old(reader).pos())
                == Ok::<(nat, int), ParseError>((v as nat, final(reader).pos())),
            Err(e) => {
                &&& sp_ue_u8(old(reader).bits(), old(reader).pos())
                    == Err::<(nat, int), ParseError>(e)
                &&& e != ParseError::Io
            },
        },
{
    match read_ue(reader) {
        Ok(v) => {
            if v > 255 {
                Err(ParseError::InvalidData)
            } else {
                Ok(v as u8)
            }
        },
        Err(e) => Err(e),
    }
}

} // verus!
