//! The Annex-B byte-stream splitter: payload blobs delimited by
//! `0x000001` start codes, the classic `0x00000001` being the
//! two-leading-zero case.

use vstd::prelude::*;

verus! {

/// `n` zero bytes.
pub open spec fn zero_bytes(n: nat) -> Seq<u8> {
    Seq::new(n, |i: int| 0u8)
}

/// What one splitter step yields on the remaining stream `s`, with `z`
/// pending zero bytes and `acc` already-collected payload bytes:
/// the finished payload and the stream after its terminating start
/// code, or `None` when the stream ends with nothing collected.
///
/// Only the shortest start-code suffix terminates a payload: of a run
/// of `z` zeros before a one byte, `z - 3` zeros stay in the payload.
/// End of input inside a payload yields it, pending zeros included.
pub open spec fn sp_split_step(s: Seq<u8>, z: nat, acc: Seq<u8>)
    -> Option<(Seq<u8>, Seq<u8>)>
    decreases s.len()
{
    if s.len() == 0 {
        if acc.len() + z == 0 {
            None
        } else {
            Some((acc + zero_bytes(z), Seq::empty()))
        }
    } else {
        let b = s[0];
        if b == 0 {
            sp_split_step(s.skip(1), z + 1, acc)
        } else if b == 1 && z >= 2 {
            Some((acc + zero_bytes(if z >= 3 { (z - 3) as nat } else { 0nat }), s.skip(1)))
        } else {
            sp_split_step(s.skip(1), 0, acc + zero_bytes(z) + seq![b])
        }
    }
}

/// A step consumes part of the stream: what remains is never longer,
/// and strictly shorter when the stream was not empty.
pub proof fn lemma_sp_split_step_consumes(s: Seq<u8>, z: nat, acc: Seq<u8>)
    ensures match sp_split_step(s, z, acc) {
        None => true,
        Some((p, rest)) => rest.len() <= s.len()
            && (s.len() > 0 ==> rest.len() < s.len()),
    }
    decreases s.len()
{
    if s.len() > 0 {
        let b = s[0];
        if b == 0 {
            lemma_sp_split_step_consumes(s.skip(1), z + 1, acc);
        } else if b == 1 && z >= 2 {
        } else {
            lemma_sp_split_step_consumes(s.skip(1), 0, acc + zero_bytes(z) + seq![b]);
        }
    }
}

/// Append `n` zero bytes.
fn push_zeros(v: &mut Vec<u8>, n: usize)
    ensures final(v)@ == old(v)@ + zero_bytes(n as nat)
{
    let ghost before = v@;
    let mut i: usize = 0;
    proof { assert(before + zero_bytes(0) =~= before); }
    while i < n
        invariant i <= n, v@ == before + zero_bytes(i as nat),
        decreases n - i,
    {
        v.push(0);
        proof {
            assert(before + zero_bytes(i as nat) + seq![0u8]
                =~= before + zero_bytes((i + 1) as nat));
        }
        i = i + 1;
    }
}

/// Collect bytes from `data[*pos..]` up to and through the next start
/// code and return the payload before it; at end of input return what
/// was collected, or `None` when that is nothing.
pub fn take_until_nal_start(data: &[u8], pos: &mut usize) -> (r: Option<Vec<u8>>)
    requires *old(pos) <= data@.len()
    ensures
        *final(pos) <= data@.len(),
        match r {
            Some(v) => sp_split_step(data@.skip(*old(pos) as int), 0, Seq::empty())
                == Some((v@, data@.skip(*final(pos) as int))),
            None => {
                &&& sp_split_step(data@.skip(*old(pos) as int), 0, Seq::empty())
                    is None
                &&& *final(pos) == data@.len()
            },
        },
{
    let ghost start_rest = data@.skip(*old(pos) as int);
    let mut nal_data: Vec<u8> = Vec::new();
    let mut zeros_found: usize = 0;
    proof {
        assert(nal_data@ =~= Seq::<u8>::empty());
    }
    while *pos < data.len()
        invariant
            *old(pos) <= *pos <= data@.len(),
            start_rest == data@.skip(*old(pos) as int),
            zeros_found <= *pos,
            sp_split_step(start_rest, 0, Seq::empty())
                == sp_split_step(data@.skip(*pos as int), zeros_found as nat, nal_data@),
        decreases data@.len() - *pos,
    {
        let b = data[*pos];
        let ghost rest = data@.skip(*pos as int);
        let ghost acc0 = nal_data@;
        proof {
            assert(rest[0] == b);
            assert(rest.skip(1) =~= data@.skip(*pos as int + 1));
        }
        *pos = *pos + 1;
        if b == 0 {
            zeros_found = zeros_found + 1;
        } else if b == 1 && zeros_found >= 2 {
            if zeros_found >= 3 {
                push_zeros(&mut nal_data, zeros_found - 3);
            }
            proof {
                if zeros_found < 3 {
                    assert(nal_data@ + zero_bytes(0) =~= nal_data@);
                }
                assert(nal_data@ == acc0 + zero_bytes(
                    if zeros_found >= 3 { (zeros_found - 3) as nat } else { 0nat }));
            }
            return Some(nal_data);
        } else {
            push_zeros(&mut nal_data, zeros_found);
            nal_data.push(b);
            proof {
                assert(nal_data@ =~= acc0 + zero_bytes(zeros_found as nat) + seq![b]);
            }
            zeros_found = 0;
        }
    }
    proof {
        assert(data@.skip(data@.len() as int) =~= Seq::<u8>::empty());
    }
    if nal_data.len() == 0 && zeros_found == 0 {
        None
    } else {
        push_zeros(&mut nal_data, zeros_found);
        Some(nal_data)
    }
}

/// What the splitter yields on one `next` call, given the remaining
/// stream and whether the first start code has been consumed: the
/// payload, the stream left over, and the new started flag.  The blob
/// before the first start code is discarded.
pub open spec fn sp_iter_next(rest: Seq<u8>, started: bool)
    -> (Option<Seq<u8>>, Seq<u8>, bool)
{
    if !started {
        match sp_split_step(rest, 0, Seq::empty()) {
            None => (None::<Seq<u8>>, Seq::empty(), false),
            Some((junk, r1)) => match sp_split_step(r1, 0, Seq::empty()) {
                None => (None::<Seq<u8>>, Seq::empty(), true),
                Some((p, r2)) => (Some(p), r2, true),
            },
        }
    } else {
        match sp_split_step(rest, 0, Seq::empty()) {
            None => (None::<Seq<u8>>, Seq::empty(), true),
            Some((p, r2)) => (Some(p), r2, true),
        }
    }
}

/// A lazy splitter over an in-memory stream, yielding one payload per
/// `next` call.
pub struct NalIterator {
    data: Vec<u8>,
    pos: usize,
    found_nal_last_time: bool,
}

impl NalIterator {
    /// The stream not yet consumed.
    pub closed spec fn rest(&self) -> Seq<u8> {
        self.data@.skip(self.pos as int)
    }

    /// Whether the first start code has been consumed.
    pub closed spec fn started(&self) -> bool {
        self.found_nal_last_time
    }

    pub closed spec fn wf(&self) -> bool {
        self.pos <= self.data@.len()
    }

    pub fn new(data: Vec<u8>) -> (r: Self)
        ensures r.wf(), r.rest() == data@, !r.started()
    {
        let r = NalIterator { data, pos: 0, found_nal_last_time: false };
        proof { assert(r.data@.skip(0) =~= r.data@); }
        r
    }

    /// The next payload, if any.
    pub fn next(&mut self) -> (r: Option<Vec<u8>>)
        requires old(self).wf()
        ensures
            final(self).wf(),
            ({
                let (res, rest2, started2) =
                    sp_iter_next(old(self).rest(), old(self).started());
                &&& match (r, res) {
                    (Some(v), Some(p)) => v@ == p,
                    (None, None) => true,
                    _ => false,
                }
                &&& final(self).rest() == rest2
                &&& final(self).started() == started2
            }),
    {
        if !self.found_nal_last_time {
            let head = take_until_nal_start(self.data.as_slice(), &mut self.pos);
            if head.is_none() {
                proof {
                    assert(self.data@.skip(self.data@.len() as int) =~= Seq::<u8>::empty());
                }
                return None;
            }
            self.found_nal_last_time = true;
        }
        let r = take_until_nal_start(self.data.as_slice(), &mut self.pos);
        proof {
            if r is None {
                assert(self.data@.skip(self.data@.len() as int) =~= Seq::<u8>::empty());
            }
        }
        r
    }
}

} // verus!
