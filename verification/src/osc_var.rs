//! Change-tracked control variables: a value tied to a control
//! address, flagged when it changes locally (to be sent out) or when a
//! matching message changes it (to be acted on).
//!
//! Fractional wire values travel as thousandths; the surrounding
//! application converts them to and from the wire's floating-point
//! encoding, and maps address words to and from the address paths.

use vstd::prelude::*;

verus! {

/// One control message argument: an integer, a fractional value in
/// thousandths, or a flag.
#[derive(Clone, Copy, Debug, PartialEq, Eq, Structural)]
pub enum OscArg {
    Int(i32),
    Milli(i64),
    Bool(bool),
}

/// The closed set of control addresses the protocol speaks.
#[derive(Clone, Copy, Debug, PartialEq, Eq, Structural)]
pub enum OscAddress {
    VideoNum,
    BeatMultiplier,
    PassIframe,
    Playhead,
    LoopRangeVar,
    AutoSkip,
    FrameRepeat,
    LoopToBeat,
    Fps,
    AutoSwitch,
    ByteErrors,
    UseExternalBeat,
    BeatOffset,
    ActiveSlot,
    EditSlot,
    IsLive,
    SetClientAddress,
    RecordLoop,
    ClearLoop,
    CutLoop,
    SkipFrames,
    ShortLoopVar,
    ManualBeat,
    TraktorBeat,
    Reset,
    CopyActive,
    BeatDelayed,
}

/// One decoded control message.
#[derive(Debug)]
pub struct OscMessage {
    pub addr: OscAddress,
    pub args: Vec<OscArg>,
}

/// A value that can cross the control protocol: it encodes itself as
/// arguments and decodes itself from them.
pub trait OscValue: Sized + Copy {
    /// The argument encoding of this value.
    spec fn sp_args(self) -> Seq<OscArg>;

    /// The value the arguments stand for, if they fit this type.
    spec fn sp_from_args(args: Seq<OscArg>) -> Option<Self>;

    /// Value equality.
    fn eq_val(&self, other: &Self) -> (r: bool)
        ensures r == (*self == *other);

    /// Encode.
    fn to_args(&self) -> (r: Vec<OscArg>)
        ensures r@ == self.sp_args();

    /// Decode.
    fn try_from_args(args: &Vec<OscArg>) -> (r: Option<Self>)
        ensures r == Self::sp_from_args(args@);
}

impl OscValue for i32 {
    open spec fn sp_args(self) -> Seq<OscArg> {
        seq![OscArg::Int(self)]
    }

    open spec fn sp_from_args(args: Seq<OscArg>) -> Option<i32> {
        if args.len() >= 1 {
            match args[0] {
                OscArg::Int(v) => Some(v),
                _ => None,
            }
        } else {
            None
        }
    }

    fn eq_val(&self, other: &Self) -> (r: bool) {
        *self == *other
    }

    fn to_args(&self) -> (r: Vec<OscArg>) {
        let mut v: Vec<OscArg> = Vec::new();
        v.push(OscArg::Int(*self));
        proof { assert(v@ =~= self.sp_args()); }
        v
    }

    fn try_from_args(args: &Vec<OscArg>) -> (r: Option<i32>) {
        if args.len() >= 1 {
            match args[0] {
                OscArg::Int(v) => Some(v),
                _ => None,
            }
        } else {
            None
        }
    }
}

impl OscValue for bool {
    open spec fn sp_args(self) -> Seq<OscArg> {
        seq![OscArg::Bool(self)]
    }

    open spec fn sp_from_args(args: Seq<OscArg>) -> Option<bool> {
        if args.len() >= 1 {
            match args[0] {
                OscArg::Bool(v) => Some(v),
                _ => None,
            }
        } else {
            None
        }
    }

    fn eq_val(&self, other: &Self) -> (r: bool) {
        *self == *other
    }

    fn to_args(&self) -> (r: Vec<OscArg>) {
        let mut v: Vec<OscArg> = Vec::new();
        v.push(OscArg::Bool(*self));
        proof { assert(v@ =~= self.sp_args()); }
        v
    }

    fn try_from_args(args: &Vec<OscArg>) -> (r: Option<bool>) {
        if args.len() >= 1 {
            match args[0] {
                OscArg::Bool(v) => Some(v),
                _ => None,
            }
        } else {
            None
        }
    }
}

impl OscValue for i64 {
    open spec fn sp_args(self) -> Seq<OscArg> {
        seq![OscArg::Milli(self)]
    }

    open spec fn sp_from_args(args: Seq<OscArg>) -> Option<i64> {
        if args.len() >= 1 {
            match args[0] {
                OscArg::Milli(v) => Some(v),
                _ => None,
            }
        } else {
            None
        }
    }

    fn eq_val(&self, other: &Self) -> (r: bool) {
        *self == *other
    }

    fn to_args(&self) -> (r: Vec<OscArg>) {
        let mut v: Vec<OscArg> = Vec::new();
        v.push(OscArg::Milli(*self));
        proof { assert(v@ =~= self.sp_args()); }
        v
    }

    fn try_from_args(args: &Vec<OscArg>) -> (r: Option<i64>) {
        if args.len() >= 1 {
            match args[0] {
                OscArg::Milli(v) => Some(v),
                _ => None,
            }
        } else {
            None
        }
    }
}

/// A duration in milliseconds; on the wire, a fractional value in
/// seconds whose thousandths are the milliseconds.
impl OscValue for u64 {
    open spec fn sp_args(self) -> Seq<OscArg> {
        seq![OscArg::Milli(self as i64)]
    }

    open spec fn sp_from_args(args: Seq<OscArg>) -> Option<u64> {
        if args.len() >= 1 {
            match args[0] {
                OscArg::Milli(v) => if 0 <= v { Some(v as u64) } else { None },
                _ => None,
            }
        } else {
            None
        }
    }

    fn eq_val(&self, other: &Self) -> (r: bool) {
        *self == *other
    }

    fn to_args(&self) -> (r: Vec<OscArg>) {
        let mut v: Vec<OscArg> = Vec::new();
        proof {
            assert(*self as i64 == (*self) as i64);
        }
        v.push(OscArg::Milli(#[verifier::truncate] (*self as i64)));
        proof { assert(v@ =~= self.sp_args()); }
        v
    }

    fn try_from_args(args: &Vec<OscArg>) -> (r: Option<u64>) {
        if args.len() >= 1 {
            match args[0] {
                OscArg::Milli(v) => if 0 <= v { Some(v as u64) } else { None },
                _ => None,
            }
        } else {
            None
        }
    }
}

/// A slot index; on the wire, an integer.
impl OscValue for usize {
    open spec fn sp_args(self) -> Seq<OscArg> {
        seq![OscArg::Int(self as i32)]
    }

    open spec fn sp_from_args(args: Seq<OscArg>) -> Option<usize> {
        if args.len() >= 1 {
            match args[0] {
                OscArg::Int(v) => if 0 <= v { Some(v as usize) } else { None },
                _ => None,
            }
        } else {
            None
        }
    }

    fn eq_val(&self, other: &Self) -> (r: bool) {
        *self == *other
    }

    fn to_args(&self) -> (r: Vec<OscArg>) {
        let mut v: Vec<OscArg> = Vec::new();
        v.push(OscArg::Int(#[verifier::truncate] (*self as i32)));
        proof { assert(v@ =~= self.sp_args()); }
        v
    }

    fn try_from_args(args: &Vec<OscArg>) -> (r: Option<usize>) {
        if args.len() >= 1 {
            match args[0] {
                OscArg::Int(v) => if 0 <= v { Some(v as usize) } else { None },
                _ => None,
            }
        } else {
            None
        }
    }
}

/// A normalized loop range in thousandths, or none; none travels as
/// the full range.
#[derive(Clone, Copy, Debug, PartialEq, Eq)]
pub struct LoopRange(pub Option<(i64, i64)>);

impl OscValue for LoopRange {
    open spec fn sp_args(self) -> Seq<OscArg> {
        match self.0 {
            Some((a, b)) => seq![OscArg::Milli(a), OscArg::Milli(b)],
            None => seq![OscArg::Milli(0), OscArg::Milli(1000)],
        }
    }

    open spec fn sp_from_args(args: Seq<OscArg>) -> Option<LoopRange> {
        if args.len() >= 2 {
            match (args[0], args[1]) {
                (OscArg::Milli(a), OscArg::Milli(b)) => Some(LoopRange(Some((a, b)))),
                _ => None,
            }
        } else {
            None
        }
    }

    fn eq_val(&self, other: &Self) -> (r: bool) {
        match (self.0, other.0) {
            (None, None) => true,
            (Some((a, b)), Some((c, d))) => a == c && b == d,
            _ => false,
        }
    }

    fn to_args(&self) -> (r: Vec<OscArg>) {
        let mut v: Vec<OscArg> = Vec::new();
        match self.0 {
            Some((a, b)) => {
                v.push(OscArg::Milli(a));
                v.push(OscArg::Milli(b));
            },
            None => {
                v.push(OscArg::Milli(0));
                v.push(OscArg::Milli(1000));
            },
        }
        proof { assert(v@ =~= self.sp_args()); }
        v
    }

    fn try_from_args(args: &Vec<OscArg>) -> (r: Option<LoopRange>) {
        if args.len() >= 2 {
            match (args[0], args[1]) {
                (OscArg::Milli(a), OscArg::Milli(b)) => Some(LoopRange(Some((a, b)))),
                _ => None,
            }
        } else {
            None
        }
    }
}

/// A change-tracked cell: a value, its address, and one flag each for
/// an unsent local change and an unhandled incoming change.
#[derive(Clone, Copy, Debug)]
pub struct OscVar<T> {
    pub value: T,
    pub changed_outgoing: bool,
    pub changed_incoming: bool,
    pub address: OscAddress,
}

/// The cell after an incoming value lands on it: a decodable,
/// different value replaces the old one and flags the change; anything
/// else leaves the cell alone.
pub open spec fn sp_var_step<T: OscValue>(var: OscVar<T>, args: Seq<OscArg>) -> OscVar<T> {
    match T::sp_from_args(args) {
        None => var,
        Some(v) => if v == var.value {
            var
        } else {
            OscVar { value: v, changed_incoming: true, ..var }
        },
    }
}

impl<T: OscValue> OscVar<T> {
    /// A fresh cell; it starts flagged outgoing so a first broadcast
    /// sends every value.
    pub fn new(address: OscAddress, value: T) -> (r: Self)
        ensures r.value == value, r.address == address, r.changed_outgoing,
            !r.changed_incoming
    {
        OscVar { value, changed_outgoing: true, changed_incoming: false, address }
    }

    /// An equality-filtered local write: a different value lands and
    /// flags an outgoing change; an equal one does nothing.
    pub fn set(&mut self, value: T)
        ensures *final(self) == (if value == old(self).value {
            *old(self)
        } else {
            OscVar { value, changed_outgoing: true, ..*old(self) }
        }),
    {
        if !self.value.eq_val(&value) {
            self.value = value;
            self.changed_outgoing = true;
        }
    }

    /// Flag the value outgoing unconditionally, so the next broadcast
    /// resends it.
    pub fn set_changed(&mut self)
        ensures *final(self) == (OscVar { changed_outgoing: true, ..*old(self) }),
    {
        self.changed_outgoing = true;
    }

    /// Acknowledge an incoming change.
    pub fn set_handled(&mut self)
        ensures *final(self) == (OscVar { changed_incoming: false, ..*old(self) }),
    {
        self.changed_incoming = false;
    }

    /// Whether any change, in either direction, is pending.
    pub fn changed(&self) -> (r: bool)
        ensures r == (self.changed_incoming || self.changed_outgoing)
    {
        self.changed_incoming || self.changed_outgoing
    }

    /// Let a message land on this cell: a matching address decodes the
    /// arguments and applies an equality-filtered write, flagging an
    /// incoming change; the result says whether the address matched.
    /// Undecodable arguments on a matching address are ignored.
    pub fn handle_osc_message(&mut self, msg: &OscMessage) -> (r: bool)
        ensures
            r == (msg.addr == old(self).address),
            !r ==> *final(self) == *old(self),
            r ==> *final(self) == sp_var_step(*old(self), msg.args@),
    {
        if msg.addr == self.address {
            match T::try_from_args(&msg.args) {
                None => {},
                Some(v) => {
                    if !self.value.eq_val(&v) {
                        self.value = v;
                        self.changed_incoming = true;
                    }
                },
            }
            true
        } else {
            false
        }
    }

    /// The message to send when an outgoing change is pending; taking
    /// it clears the flag.
    pub fn take_outgoing_message(&mut self) -> (r: Option<OscMessage>)
        ensures
            match r {
                Some(m) => {
                    &&& old(self).changed_outgoing
                    &&& m.addr == old(self).address
                    &&& m.args@ == old(self).value.sp_args()
                    &&& *final(self) == (OscVar { changed_outgoing: false, ..*old(self) })
                },
                None => {
                    &&& !old(self).changed_outgoing
                    &&& *final(self) == *old(self)
                },
            },
    {
        if self.changed_outgoing {
            self.changed_outgoing = false;
            Some(OscMessage { addr: self.address, args: self.value.to_args() })
        } else {
            None
        }
    }
}

/// Decoding an encoded integer value yields it back.
pub proof fn lemma_int_args_roundtrip(v: i32)
    ensures <i32 as OscValue>::sp_from_args(v.sp_args()) == Some(v)
{
}

/// Decoding an encoded flag yields it back.
pub proof fn lemma_bool_args_roundtrip(v: bool)
    ensures <bool as OscValue>::sp_from_args(v.sp_args()) == Some(v)
{
}

/// Decoding an encoded fractional value yields it back.
pub proof fn lemma_milli_args_roundtrip(v: i64)
    ensures <i64 as OscValue>::sp_from_args(v.sp_args()) == Some(v)
{
}

/// Decoding an encoded duration yields it back; durations beyond the
/// wire's signed range cannot cross it.
pub proof fn lemma_duration_args_roundtrip(v: u64)
    requires v <= i64::MAX
    ensures <u64 as OscValue>::sp_from_args(v.sp_args()) == Some(v)
{
}

/// Decoding an encoded slot index yields it back; indices beyond the
/// wire's integer range cannot cross it.
pub proof fn lemma_slot_args_roundtrip(v: usize)
    requires v <= i32::MAX
    ensures <usize as OscValue>::sp_from_args(v.sp_args()) == Some(v)
{
}

/// Decoding an encoded loop range yields it back; an absent range
/// travels as the whole range, so only a present one round-trips.
pub proof fn lemma_loop_range_args_roundtrip(v: LoopRange)
    requires v.0 is Some
    ensures <LoopRange as OscValue>::sp_from_args(v.sp_args()) == Some(v)
{
}

} // verus!
