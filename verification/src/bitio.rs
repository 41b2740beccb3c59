//! Big-endian bit readers and writers over in-memory byte buffers.
//!
//! A byte buffer is modelled as the flat sequence of its bits, most
//! significant bit first.  Every reader and writer operation is specified
//! against that sequence.

use vstd::prelude::*;
use vstd::arithmetic::power2::*;
use vstd::arithmetic::div_mod::*;

verus! {

/// Bit `i` (0 = most significant) of byte `b`.
pub open spec fn u8_bit(b: u8, i: int) -> bool
    recommends 0 <= i < 8
{
    ((b as nat) / pow2((7 - i) as nat)) % 2 == 1
}

/// The eight bits of `b`, most significant first.
pub open spec fn u8_bits(b: u8) -> Seq<bool> {
    Seq::new(8, |i: int| u8_bit(b, i))
}

/// The bits of a byte sequence, each byte most significant bit first.
pub open spec fn bytes_bits(s: Seq<u8>) -> Seq<bool>
    decreases s.len()
{
    if s.len() == 0 {
        Seq::empty()
    } else {
        u8_bits(s[0]) + bytes_bits(s.skip(1))
    }
}

/// The value of a bit string read as a big-endian unsigned integer.
pub open spec fn bits_val(s: Seq<bool>) -> nat
    decreases s.len()
{
    if s.len() == 0 {
        0
    } else {
        2 * bits_val(s.drop_last()) + if s.last() { 1nat } else { 0nat }
    }
}

/// The `n`-bit big-endian encoding of `v`, most significant bit first.
pub open spec fn uint_bits(v: nat, n: nat) -> Seq<bool> {
    Seq::new(n, |i: int| (v / pow2((n - 1 - i) as nat)) % 2 == 1)
}

pub proof fn lemma_bytes_bits_len(s: Seq<u8>)
    ensures bytes_bits(s).len() == 8 * s.len()
    decreases s.len()
{
    if s.len() > 0 {
        lemma_bytes_bits_len(s.skip(1));
    }
}

pub proof fn lemma_bytes_bits_index(s: Seq<u8>, i: int)
    requires 0 <= i < 8 * s.len()
    ensures bytes_bits(s).len() == 8 * s.len(),
        bytes_bits(s)[i] == u8_bit(s[i / 8], i % 8)
    decreases s.len()
{
    lemma_bytes_bits_len(s);
    if i < 8 {
        lemma_small_div_converse(i, 8);
        lemma_small_mod(i as nat, 8);
    } else {
        lemma_bytes_bits_index(s.skip(1), i - 8);
        assert((i - 8) / 8 == i / 8 - 1 && (i - 8) % 8 == i % 8) by {
            lemma_sub_mod_noop(i, 8, 8);
            lemma_hoist_over_denominator(i, -1, 8);
        }
        assert(s.skip(1)[(i - 8) / 8] == s[i / 8]);
    }
}

pub proof fn lemma_bytes_bits_push(s: Seq<u8>, b: u8)
    ensures bytes_bits(s.push(b)) == bytes_bits(s) + u8_bits(b)
{
    let t = s.push(b);
    lemma_bytes_bits_len(s);
    lemma_bytes_bits_len(t);
    assert(bytes_bits(t) =~= bytes_bits(s) + u8_bits(b)) by {
        assert forall|i: int| 0 <= i < 8 * t.len() implies
            bytes_bits(t)[i] == (bytes_bits(s) + u8_bits(b))[i]
        by {
            lemma_bytes_bits_index(t, i);
            if i < 8 * s.len() {
                lemma_bytes_bits_index(s, i);
                assert(i / 8 < s.len()) by {
                    lemma_multiply_divide_lt(i, s.len() as int, 8);
                }
                assert(t[i / 8] == s[i / 8]);
            } else {
                let r = i - 8 * s.len();
                assert(i / 8 == s.len() as int && i % 8 == r) by {
                    lemma_fundamental_div_mod_converse(i, 8, s.len() as int, r);
                }
                assert(t[i / 8] == b);
            }
        }
    }
}

pub proof fn lemma_bits_val_bound(s: Seq<bool>)
    ensures bits_val(s) < pow2(s.len())
    decreases s.len()
{
    if s.len() == 0 {
        lemma2_to64();
    } else {
        lemma_bits_val_bound(s.drop_last());
        lemma_pow2_unfold(s.len());
    }
}

/// Appending one bit doubles the value and adds the bit.
pub proof fn lemma_bits_val_subrange_step(s: Seq<bool>, a: int, b: int)
    requires 0 <= a <= b < s.len()
    ensures bits_val(s.subrange(a, b + 1))
        == 2 * bits_val(s.subrange(a, b)) + if s[b] { 1nat } else { 0nat }
{
    let t = s.subrange(a, b + 1);
    assert(t.drop_last() =~= s.subrange(a, b));
    assert(t.last() == s[b]);
}

/// Reading back the bits of `v` yields `v`.
pub proof fn lemma_bits_val_uint_bits(v: nat, n: nat)
    requires v < pow2(n)
    ensures bits_val(uint_bits(v, n)) == v
    decreases n
{
    if n == 0 {
        lemma2_to64();
        assert(uint_bits(v, 0) =~= Seq::<bool>::empty());
    } else {
        let s = uint_bits(v, n);
        let half = v / 2;
        lemma_pow2_unfold(n);
        lemma_div_is_ordered(v as int, pow2(n) as int, 2);
        lemma_round_down(pow2(n) as int, 0, 2);
        assert(half < pow2((n - 1) as nat)) by {
            if half >= pow2((n - 1) as nat) {
                lemma_remainder_lower(v as int, 2);
            }
        }
        lemma_bits_val_uint_bits(half, (n - 1) as nat);
        assert(s.drop_last() =~= uint_bits(half, (n - 1) as nat)) by {
            assert forall|i: int| 0 <= i < n - 1 implies
                s[i] == uint_bits(half, (n - 1) as nat)[i]
            by {
                let e = (n - 1 - i - 1) as nat;
                lemma_pow2_unfold((n - 1 - i) as nat);
                lemma_pow2_pos(e);
                lemma_div_denominator(v as int, 2, pow2(e) as int);
                assert((v / 2) / pow2(e) == v / (2 * pow2(e)));
            }
        }
        lemma2_to64();
        assert(s.last() == ((v / pow2(0)) % 2 == 1));
        assert(v / pow2(0) == v) by { lemma_div_by_self(1); }
        lemma_fundamental_div_mod(v as int, 2);
        assert(bits_val(s) == 2 * half + v % 2);
    }
}

/// The bits of the value of `s` are `s` itself.
pub proof fn lemma_uint_bits_of_val(s: Seq<bool>)
    ensures uint_bits(bits_val(s), s.len()) == s
    decreases s.len()
{
    let n = s.len();
    if n == 0 {
        assert(uint_bits(bits_val(s), 0) =~= s);
    } else {
        let v = bits_val(s);
        let t = s.drop_last();
        let w = bits_val(t);
        lemma_uint_bits_of_val(t);
        let last_add: nat = if s.last() { 1nat } else { 0nat };
        assert(v == 2 * w + last_add);
        assert(v / 2 == w && v % 2 == last_add) by {
            lemma_fundamental_div_mod_converse(v as int, 2, w as int, last_add as int);
        }
        assert(uint_bits(v, n as nat) =~= s) by {
            assert forall|i: int| 0 <= i < n implies uint_bits(v, n as nat)[i] == s[i] by {
                if i == n - 1 {
                    lemma2_to64();
                    assert(pow2((n - 1 - i) as nat) == 1);
                    assert(v / 1 == v) by { lemma_div_by_self(1); }
                } else {
                    let e = (n - 1 - i - 1) as nat;
                    lemma_pow2_unfold((n - 1 - i) as nat);
                    lemma_pow2_pos(e);
                    lemma_div_denominator(v as int, 2, pow2(e) as int);
                    assert(v / (2 * pow2(e)) == (v / 2) / pow2(e));
                    assert(uint_bits(w, (n - 1) as nat)[i] == t[i]);
                }
            }
        }
    }
}

/// An all-zero bit string.
pub proof fn lemma_uint_bits_zero(n: nat)
    ensures uint_bits(0, n) =~= Seq::new(n, |i: int| false)
{
    assert forall|i: int| 0 <= i < n implies !uint_bits(0, n)[i] by {
        lemma_pow2_pos((n - 1 - i) as nat);
        lemma_div_of0(pow2((n - 1 - i) as nat) as int);
    }
}

/// `pow2(e)` for `e < 8`, as a byte.
pub fn pow2_u8(e: usize) -> (r: u8)
    requires e < 8
    ensures r as nat == pow2(e as nat)
{
    proof { lemma2_to64(); }
    match e {
        0 => 1,
        1 => 2,
        2 => 4,
        3 => 8,
        4 => 16,
        5 => 32,
        6 => 64,
        _ => 128,
    }
}

/// `pow2(e)` for `e < 32`.
pub fn pow2_u32(e: usize) -> (r: u32)
    requires e < 32
    ensures r as nat == pow2(e as nat)
{
    let mut i: usize = 0;
    let mut p: u32 = 1;
    proof { lemma2_to64(); }
    while i < e
        invariant i <= e < 32, p as nat == pow2(i as nat),
        decreases e - i,
    {
        proof {
            lemma_pow2_unfold((i + 1) as nat);
            lemma_pow2_strictly_increases((i + 1) as nat, 32);
            lemma2_to64();
        }
        p = p * 2;
        i = i + 1;
    }
    p
}

/// A big-endian bit reader over an in-memory byte buffer.
pub struct BitReader {
    data: Vec<u8>,
    byte_pos: usize,
    bit_pos: usize,
}

impl BitReader {
    /// The whole input, as bits.
    pub closed spec fn bits(&self) -> Seq<bool> {
        bytes_bits(self.data@)
    }

    /// The current position, in bits from the start of the input.
    pub closed spec fn pos(&self) -> int {
        8 * self.byte_pos + self.bit_pos
    }

    pub closed spec fn wf(&self) -> bool {
        &&& self.bit_pos < 8
        &&& self.byte_pos <= self.data@.len()
        &&& (self.byte_pos == self.data@.len() ==> self.bit_pos == 0)
    }

    pub proof fn lemma_pos_le_len(&self)
        requires self.wf()
        ensures 0 <= self.pos() <= self.bits().len(), self.bits().len() % 8 == 0
    {
        lemma_bytes_bits_len(self.data@);
        lemma_mod_multiples_vanish(self.data@.len() as int, 0, 8);
    }

    pub fn new(data: Vec<u8>) -> (r: Self)
        ensures r.wf(), r.bits() == bytes_bits(data@), r.pos() == 0
    {
        BitReader { data, byte_pos: 0, bit_pos: 0 }
    }

    /// Read one bit; `None` exactly at end of input.
    pub fn read_bit(&mut self) -> (r: Option<bool>)
        requires old(self).wf()
        ensures
            final(self).wf(),
            final(self).bits() == old(self).bits(),
            match r {
                Some(b) => {
                    &&& old(self).pos() < old(self).bits().len()
                    &&& b == old(self).bits()[old(self).pos()]
                    &&& final(self).pos() == old(self).pos() + 1
                },
                None => {
                    &&& old(self).pos() == old(self).bits().len()
                    &&& final(self).pos() == old(self).pos()
                },
            },
    {
        proof {
            self.lemma_pos_le_len();
            lemma_bytes_bits_len(self.data@);
        }
        if self.byte_pos == self.data.len() {
            None
        } else {
            let byte = self.data[self.byte_pos];
            let p = pow2_u8(7 - self.bit_pos);
            proof { lemma_pow2_pos((7 - self.bit_pos) as nat); }
            let b = (byte / p) % 2 == 1;
            proof {
                assert(b == u8_bit(byte, self.bit_pos as int));
                lemma_bytes_bits_index(self.data@, self.pos());
                assert(self.pos() / 8 == self.byte_pos as int
                    && self.pos() % 8 == self.bit_pos as int) by {
                    lemma_fundamental_div_mod_converse(
                        self.pos(), 8, self.byte_pos as int, self.bit_pos as int);
                }
            }
            self.bit_pos = self.bit_pos + 1;
            if self.bit_pos == 8 {
                self.bit_pos = 0;
                self.byte_pos = self.byte_pos + 1;
            }
            Some(b)
        }
    }

    /// Read `n` bits as a big-endian unsigned integer; `None` if fewer
    /// than `n` bits remain, in which case the position does not move.
    pub fn read_bits(&mut self, n: usize) -> (r: Option<u32>)
        requires old(self).wf(), n <= 32
        ensures
            final(self).wf(),
            final(self).bits() == old(self).bits(),
            match r {
                Some(v) => {
                    &&& old(self).pos() + n <= old(self).bits().len()
                    &&& v as nat == bits_val(
                        old(self).bits().subrange(old(self).pos(), old(self).pos() + n))
                    &&& final(self).pos() == old(self).pos() + n
                },
                None => {
                    &&& old(self).pos() + n > old(self).bits().len()
                    &&& final(self).pos() == old(self).pos()
                },
            },
    {
        proof {
            self.lemma_pos_le_len();
            lemma_bytes_bits_len(self.data@);
            lemma2_to64();
        }
        let remaining_bytes = self.data.len() - self.byte_pos;
        if remaining_bytes < 5 {
            let rem_bits = 8 * remaining_bytes - self.bit_pos;
            if n > rem_bits {
                return None;
            }
        }
        let ghost s = self.bits();
        let ghost p0 = self.pos();
        let mut acc: u32 = 0;
        let mut i: usize = 0;
        proof {
            assert(s.subrange(p0, p0) =~= Seq::<bool>::empty());
        }
        while i < n
            invariant
                self.wf(),
                self.bits() == s,
                i <= n <= 32,
                0 <= p0,
                p0 + n <= s.len(),
                self.pos() == p0 + i,
                acc as nat == bits_val(s.subrange(p0, p0 + i)),
                (acc as nat) < pow2(i as nat),
            decreases n - i,
        {
            proof {
                self.lemma_pos_le_len();
                lemma_pow2_strictly_increases(i as nat, 32);
                lemma2_to64();
            }
            let rb = self.read_bit();
            proof { assert(rb is Some); }
            let b = rb.unwrap();
            proof {
                lemma_bits_val_subrange_step(s, p0, p0 + i);
                lemma_pow2_unfold((i + 1) as nat);
            }
            acc = 2 * acc + if b { 1 } else { 0 };
            i = i + 1;
        }
        Some(acc)
    }

    /// True when the position is at a byte boundary.
    pub fn byte_aligned(&self) -> (r: bool)
        requires self.wf()
        ensures r == (self.pos() % 8 == 0)
    {
        proof {
            lemma_fundamental_div_mod_converse(
                self.pos(), 8, self.byte_pos as int, self.bit_pos as int);
        }
        self.bit_pos == 0
    }

    /// The current position as a byte index plus a bit offset,
    /// suitable for a later `seek`.
    pub fn tell(&self) -> (r: (usize, usize))
        requires self.wf()
        ensures 8 * r.0 + r.1 == self.pos(), r.1 < 8
    {
        (self.byte_pos, self.bit_pos)
    }

    /// Move to an absolute position given as byte index plus bit offset.
    pub fn seek(&mut self, byte: usize, bit: usize)
        requires
            old(self).wf(),
            bit < 8,
            8 * byte + bit <= old(self).bits().len(),
        ensures
            final(self).wf(),
            final(self).bits() == old(self).bits(),
            final(self).pos() == 8 * byte + bit,
    {
        proof {
            lemma_bytes_bits_len(self.data@);
        }
        self.byte_pos = byte;
        self.bit_pos = bit;
    }
}

/// A big-endian bit writer producing a byte buffer.
pub struct BitWriter {
    out: Vec<u8>,
    pending: Vec<bool>,
}

impl BitWriter {
    /// All bits written so far.
    pub closed spec fn bits(&self) -> Seq<bool> {
        bytes_bits(self.out@) + self.pending@
    }

    pub closed spec fn wf(&self) -> bool {
        self.pending@.len() < 8
    }

    pub fn new() -> (r: Self)
        ensures r.wf(), r.bits() == Seq::<bool>::empty()
    {
        let r = BitWriter { out: Vec::new(), pending: Vec::new() };
        proof { assert(r.bits() =~= Seq::<bool>::empty()); }
        r
    }

    /// Append one bit.
    #[verifier::rlimit(50)]
    pub fn write_bit(&mut self, b: bool)
        requires old(self).wf()
        ensures final(self).wf(),
            final(self).bits() == old(self).bits() + seq![b]
    {
        let ghost before = self.bits();
        self.pending.push(b);
        assert(self.bits() =~= before + seq![b]);
        if self.pending.len() == 8 {
            let ghost mid = self.bits();
            let v0: u8 = if self.pending[0] { 1 } else { 0 };
            let v1: u8 = if self.pending[1] { 1 } else { 0 };
            let v2: u8 = if self.pending[2] { 1 } else { 0 };
            let v3: u8 = if self.pending[3] { 1 } else { 0 };
            let v4: u8 = if self.pending[4] { 1 } else { 0 };
            let v5: u8 = if self.pending[5] { 1 } else { 0 };
            let v6: u8 = if self.pending[6] { 1 } else { 0 };
            let v7: u8 = if self.pending[7] { 1 } else { 0 };
            let v: u8 = ((((((v0 * 2 + v1) * 2 + v2) * 2 + v3) * 2 + v4) * 2 + v5) * 2 + v6) * 2
                + v7;
            proof {
                assert(
                    (v / 128) % 2 == v0 && (v / 64) % 2 == v1 && (v / 32) % 2 == v2
                    && (v / 16) % 2 == v3 && (v / 8) % 2 == v4 && (v / 4) % 2 == v5
                    && (v / 2) % 2 == v6 && v % 2 == v7
                ) by (bit_vector)
                    requires
                        v0 <= 1 && v1 <= 1 && v2 <= 1 && v3 <= 1 && v4 <= 1 && v5 <= 1
                        && v6 <= 1 && v7 <= 1,
                        v == ((((((v0 * 2 + v1) * 2 + v2) * 2 + v3) * 2 + v4) * 2 + v5) * 2 + v6)
                            * 2 + v7,
                ;
                lemma2_to64();
                assert(u8_bits(v) =~= self.pending@) by {
                    assert(v / 1 == v as int) by { lemma_div_by_self(1); }
                    assert forall|i: int| 0 <= i < 8 implies
                        u8_bits(v)[i] == self.pending@[i]
                    by {
                        if i == 7 {
                            assert(pow2(0) == 1);
                        }
                    }
                }
                lemma_bytes_bits_push(self.out@, v);
            }
            self.out.push(v);
            self.pending.clear();
            assert(self.bits() =~= mid);
        }
    }

    /// Append the `n`-bit big-endian encoding of `v`.
    pub fn write_bits(&mut self, n: usize, v: u32)
        requires old(self).wf(), n <= 32, (v as nat) < pow2(n as nat)
        ensures final(self).wf(),
            final(self).bits() == old(self).bits() + uint_bits(v as nat, n as nat)
    {
        let ghost before = self.bits();
        let ghost enc = uint_bits(v as nat, n as nat);
        let mut i: usize = 0;
        proof { assert(before + enc.subrange(0, 0) =~= before); }
        while i < n
            invariant
                self.wf(),
                i <= n <= 32,
                (v as nat) < pow2(n as nat),
                enc == uint_bits(v as nat, n as nat),
                self.bits() == before + enc.subrange(0, i as int),
            decreases n - i,
        {
            let p = pow2_u32(n - 1 - i);
            proof { lemma_pow2_pos((n - 1 - i) as nat); }
            let b = (v / p) % 2 == 1;
            proof {
                assert(b == enc[i as int]);
                assert(enc.subrange(0, i as int).push(enc[i as int])
                    =~= enc.subrange(0, i + 1));
            }
            self.write_bit(b);
            i = i + 1;
        }
        proof { assert(enc.subrange(0, n as int) =~= enc); }
    }

    /// The number of zero bits needed to reach the next byte boundary.
    pub open spec fn align_pad(len: int) -> int {
        (8 - len % 8) % 8
    }

    /// Pad with zero bits to the next byte boundary.
    pub fn byte_align(&mut self)
        requires old(self).wf()
        ensures final(self).wf(),
            final(self).bits() == old(self).bits()
                + Seq::new(Self::align_pad(old(self).bits().len() as int) as nat, |i: int| false),
            final(self).bits().len() % 8 == 0,
    {
        let ghost before = self.bits();
        let l0 = self.pending.len();
        proof {
            lemma_bytes_bits_len(self.out@);
            assert(before.len() % 8 == l0) by {
                lemma_mod_multiples_vanish(self.out@.len() as int, l0 as int, 8);
                lemma_small_mod(l0 as nat, 8);
            }
        }
        let pad = (8 - l0) % 8;
        proof {
            lemma_small_mod(0, 8);
            if l0 > 0 {
                lemma_small_mod((8 - l0) as nat, 8);
            }
            assert(pad == Self::align_pad(before.len() as int));
        }
        let mut written: usize = 0;
        proof { assert(before + Seq::new(0nat, |i: int| false) =~= before); }
        while written < pad
            invariant
                self.wf(),
                pad < 8,
                written <= pad,
                self.bits() == before + Seq::new(written as nat, |i: int| false),
            decreases pad - written,
        {
            let ghost w0 = written;
            self.write_bit(false);
            written = written + 1;
            proof {
                assert(before + Seq::new(w0 as nat, |i: int| false) + seq![false]
                    =~= before + Seq::new(written as nat, |i: int| false));
            }
        }
        proof {
            assert(final(self).bits().len() % 8 == 0) by {
                let blen = before.len() as int;
                lemma_fundamental_div_mod(blen, 8);
                assert((blen + pad) % 8 == 0) by {
                    lemma_mod_multiples_vanish(blen / 8 + if pad > 0 { 1int } else { 0int },
                        0, 8);
                }
            }
        }
    }

    /// The finished buffer; the writer must be byte-aligned.
    pub fn take_bytes(self) -> (r: Vec<u8>)
        requires self.wf(), self.bits().len() % 8 == 0
        ensures bytes_bits(r@) == self.bits()
    {
        proof {
            lemma_bytes_bits_len(self.out@);
            assert(self.pending@.len() % 8 == self.bits().len() % 8) by {
                lemma_mod_multiples_vanish(self.out@.len() as int, self.pending@.len() as int, 8);
            }
            lemma_small_mod(self.pending@.len(), 8);
            assert(self.pending@.len() == 0);
            assert(bytes_bits(self.out@) =~= self.bits());
        }
        self.out
    }
}


/// Reassociate one appended chunk.
pub proof fn lemma_seq_assoc<A>(a: Seq<A>, b: Seq<A>, c: Seq<A>)
    ensures (a + b) + c == a + (b + c)
{
    assert((a + b) + c =~= a + (b + c));
}

/// `(s + [p]) + [q]` regrouped as one two-element append.
pub proof fn lemma_seq_pair(s: Seq<bool>, p: bool, q: bool)
    ensures (s + seq![p]) + seq![q] == s + seq![p, q]
{
    assert((s + seq![p]) + seq![q] =~= s + seq![p, q]);
}

/// `((s + [p]) + [q]) + [r]` regrouped as one three-element append.
pub proof fn lemma_seq_triple(s: Seq<bool>, p: bool, q: bool, r: bool)
    ensures ((s + seq![p]) + seq![q]) + seq![r] == s + seq![p, q, r]
{
    assert(((s + seq![p]) + seq![q]) + seq![r] =~= s + seq![p, q, r]);
}

/// Appending nothing changes nothing.
pub proof fn lemma_seq_add_empty<A>(s: Seq<A>)
    ensures s + Seq::<A>::empty() == s
{
    assert(s + Seq::<A>::empty() =~= s);
}

} // verus!
