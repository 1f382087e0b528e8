//! MAVLink v2 (and v1, for robustness) frame encoding and decoding.
//!
//! A v2 frame is `FD | len | incompat | compat | seq | sysid | compid |
//! msgid(3, LE) | payload(len) | crc(2, LE)`. The checksum covers every byte
//! after the magic through the payload, then the message's `crc_extra` byte.
//! Senders may omit trailing zero bytes of the payload, so a decoder accepts
//! short payloads.

use vstd::prelude::*;
use crate::crc::X25Crc;
#[allow(unused_imports)]
use crate::crc::{crc_byte, crc_of, crc_byte_injective};

verus! {

pub const MAGIC_V2: u8 = 0xFD;

pub const MAGIC_V1: u8 = 0xFE;

/// Magic through message id.
pub const V2_HEADER_LEN: usize = 10;

pub const V1_HEADER_LEN: usize = 6;

/// A buffer longer than this holds garbage and is dropped whole.
pub const MAX_BUFFERED: usize = 4096;

/// A structurally parsed frame.
#[derive(Debug, Clone, PartialEq, Eq)]
pub struct Frame {
    pub seq: u8,
    pub sysid: u8,
    pub compid: u8,
    pub msgid: u32,
    pub payload: Vec<u8>,
    pub crc_ok: bool,
}

/// What a frame says.
#[verifier::ext_equal]
pub struct FrameModel {
    pub seq: u8,
    pub sysid: u8,
    pub compid: u8,
    pub msgid: u32,
    pub payload: Seq<u8>,
    pub crc_ok: bool,
}

impl View for Frame {
    type V = FrameModel;

    open spec fn view(&self) -> FrameModel {
        FrameModel {
            seq: self.seq,
            sysid: self.sysid,
            compid: self.compid,
            msgid: self.msgid,
            payload: self.payload@,
            crc_ok: self.crc_ok,
        }
    }
}

/// A payload without its trailing zero bytes.
pub open spec fn trimmed(p: Seq<u8>) -> Seq<u8>
    decreases p.len(),
{
    if p.len() > 0 && p.last() == 0 {
        trimmed(p.drop_last())
    } else {
        p
    }
}

pub open spec fn msgid_byte(msgid: u32, shift: u32) -> u8 {
    ((msgid >> shift) & 0xff) as u8
}

/// The part of a v2 frame that its checksum covers.
pub open spec fn v2_covered(f: FrameModel, seq: u8) -> Seq<u8> {
    let p = trimmed(f.payload);
    seq![
        p.len() as u8,
        0u8,
        0u8,
        seq,
        f.sysid,
        f.compid,
        (f.msgid & 0xff) as u8,
        msgid_byte(f.msgid, 8),
        msgid_byte(f.msgid, 16),
    ] + p
}

pub open spec fn crc_low(c: u16) -> u8 {
    (c & 0xff) as u8
}

pub open spec fn crc_high(c: u16) -> u8 {
    (c >> 8) as u8
}

/// The bytes of a v2 frame.
#[verifier::opaque]
pub open spec fn v2_bytes(f: FrameModel, seq: u8, extra: u8) -> Seq<u8> {
    let body = v2_covered(f, seq);
    let crc = crc_byte(crc_of(body), extra);
    seq![MAGIC_V2] + body + seq![crc_low(crc), crc_high(crc)]
}

impl Frame {
    /// Encode as a MAVLink v2 frame; trailing zero bytes of the payload are
    /// left out.
    pub fn encode_v2(&self, seq: u8, crc_extra: u8) -> (out: Vec<u8>)
        ensures
            out@ == v2_bytes(self@, seq, crc_extra),
    {
        let mut n: usize = self.payload.len();
        assert(self.payload@.subrange(0, n as int) == self.payload@);
        while n > 0 && self.payload[n - 1] == 0
            invariant
                n <= self.payload@.len(),
                trimmed(self.payload@.subrange(0, n as int)) == trimmed(self.payload@),
            decreases n,
        {
            assert(self.payload@.subrange(0, n as int).drop_last() == self.payload@.subrange(
                0,
                n - 1,
            ));
            n = n - 1;
        }
        let ghost p = self.payload@.subrange(0, n as int);
        assert(trimmed(self.payload@) == p);
        let mut out: Vec<u8> = Vec::new();
        out.push(MAGIC_V2);
        out.push(#[verifier::truncate] (n as u8));
        out.push(0);
        out.push(0);
        out.push(seq);
        out.push(self.sysid);
        out.push(self.compid);
        out.push((self.msgid & 0xff) as u8);
        out.push(((self.msgid >> 8) & 0xff) as u8);
        out.push(((self.msgid >> 16) & 0xff) as u8);
        let ghost header = out@;
        let mut i: usize = 0;
        while i < n
            invariant
                i <= n <= self.payload@.len(),
                out@ == header + self.payload@.subrange(0, i as int),
            decreases n - i,
        {
            out.push(self.payload[i]);
            assert(self.payload@.subrange(0, i + 1) == self.payload@.subrange(0, i as int).push(
                self.payload@[i as int],
            ));
            i = i + 1;
        }
        let mut crc = X25Crc::new();
        crc.accumulate_range(out.as_slice(), 1, out.len());
        proof {
            assert(out@.subrange(1, out@.len() as int) == v2_covered(self@, seq));
        }
        let crc: u16 = crc.finalize_with_extra(crc_extra);
        proof {
            reveal(v2_bytes);
        }
        out.push((crc & 0xff) as u8);
        out.push((crc >> 8) as u8);
        out
    }
}

/// The extra checksum byte of each message this fleet speaks.
pub open spec fn crc_extra_of(msgid: u32) -> Option<u8> {
    match msgid {
        0 => Some(50u8),
        1 => Some(124u8),
        4 => Some(237u8),
        20 => Some(214u8),
        21 => Some(159u8),
        22 => Some(220u8),
        23 => Some(168u8),
        30 => Some(39u8),
        32 => Some(185u8),
        33 => Some(104u8),
        76 => Some(152u8),
        77 => Some(143u8),
        84 => Some(143u8),
        147 => Some(154u8),
        242 => Some(104u8),
        253 => Some(83u8),
        43 => Some(132u8),
        44 => Some(221u8),
        47 => Some(153u8),
        51 => Some(226u8),
        73 => Some(38u8),
        40 => Some(228u8),
        _ => None,
    }
}

/// The extra checksum byte of a message, or `None` for a message outside the
/// fleet's subset of the common dialect.
pub fn crc_extra(msgid: u32) -> (r: Option<u8>)
    ensures
        r == crc_extra_of(msgid),
{
    match msgid {
        0 => Some(50),  // HEARTBEAT
        1 => Some(124),  // SYS_STATUS
        4 => Some(237),  // PING
        20 => Some(214),  // PARAM_REQUEST_READ
        21 => Some(159),  // PARAM_REQUEST_LIST
        22 => Some(220),  // PARAM_VALUE
        23 => Some(168),  // PARAM_SET
        30 => Some(39),  // ATTITUDE
        32 => Some(185),  // LOCAL_POSITION_NED
        33 => Some(104),  // GLOBAL_POSITION_INT
        76 => Some(152),  // COMMAND_LONG
        77 => Some(143),  // COMMAND_ACK
        84 => Some(143),  // SET_POSITION_TARGET_LOCAL_NED
        147 => Some(154),  // BATTERY_STATUS
        242 => Some(104),  // HOME_POSITION
        253 => Some(83),  // STATUSTEXT
        43 => Some(132),  // MISSION_REQUEST_LIST
        44 => Some(221),  // MISSION_COUNT
        47 => Some(153),  // MISSION_ACK
        51 => Some(226),  // MISSION_REQUEST_INT
        73 => Some(38),  // MISSION_ITEM_INT
        40 => Some(228),  // MISSION_REQUEST
        _ => None,
    }
}

/// What the bytes at the head of a buffer are.
pub enum Head {
    /// A frame that has not arrived whole.
    Partial,
    /// Not the start of a frame, or one that fails its checksum.
    Garbage,
    /// A frame and the number of bytes it takes up.
    Whole(FrameModel, int),
}

pub open spec fn wire_crc(lo: u8, hi: u8) -> u16 {
    (lo as u16) | ((hi as u16) << 8)
}

/// Whether the checksum of a frame of message `msgid` holds; `None` where the
/// message is unknown and the checksum cannot be tested.
pub open spec fn checksum_holds(msgid: u32, covered: Seq<u8>, lo: u8, hi: u8) -> Option<bool> {
    match crc_extra_of(msgid) {
        Some(extra) => Some(crc_byte(crc_of(covered), extra) == wire_crc(lo, hi)),
        None => None,
    }
}

pub open spec fn v2_msgid(buf: Seq<u8>) -> u32 {
    (buf[7] as u32) | ((buf[8] as u32) << 8) | ((buf[9] as u32) << 16)
}

/// The head of a buffer that starts with the v2 magic.
pub open spec fn v2_head(buf: Seq<u8>) -> Head {
    let len = buf[1] as int;
    if buf.len() < V2_HEADER_LEN || buf.len() < V2_HEADER_LEN + len + 2 {
        Head::Partial
    } else {
        let end = V2_HEADER_LEN + len;
        let holds = checksum_holds(v2_msgid(buf), buf.subrange(1, end), buf[end], buf[end + 1]);
        if holds == Some(false) {
            Head::Garbage
        } else {
            Head::Whole(
                FrameModel {
                    seq: buf[4],
                    sysid: buf[5],
                    compid: buf[6],
                    msgid: v2_msgid(buf),
                    payload: buf.subrange(V2_HEADER_LEN as int, end),
                    crc_ok: holds == Some(true),
                },
                end + 2,
            )
        }
    }
}

/// The head of a buffer that starts with the v1 magic.
pub open spec fn v1_head(buf: Seq<u8>) -> Head {
    let len = buf[1] as int;
    if buf.len() < V1_HEADER_LEN || buf.len() < V1_HEADER_LEN + len + 2 {
        Head::Partial
    } else {
        let end = V1_HEADER_LEN + len;
        let holds = checksum_holds(buf[5] as u32, buf.subrange(1, end), buf[end], buf[end + 1]);
        if holds == Some(false) {
            Head::Garbage
        } else {
            Head::Whole(
                FrameModel {
                    seq: buf[2],
                    sysid: buf[3],
                    compid: buf[4],
                    msgid: buf[5] as u32,
                    payload: buf.subrange(V1_HEADER_LEN as int, end),
                    crc_ok: holds == Some(true),
                },
                end + 2,
            )
        }
    }
}

pub open spec fn head_of(buf: Seq<u8>) -> Head {
    if buf.len() == 0 {
        Head::Partial
    } else if buf[0] == MAGIC_V2 {
        v2_head(buf)
    } else if buf[0] == MAGIC_V1 {
        v1_head(buf)
    } else {
        Head::Garbage
    }
}

/// The first whole frame of a buffer, garbage skipped, and the bytes that
/// stay buffered.
pub open spec fn first_frame(buf: Seq<u8>) -> (Option<FrameModel>, Seq<u8>)
    decreases buf.len(),
{
    if buf.len() == 0 {
        (None, buf)
    } else {
        match head_of(buf) {
            Head::Partial => (None, buf),
            Head::Garbage => first_frame(buf.drop_first()),
            Head::Whole(f, n) => (Some(f), buf.subrange(n, buf.len() as int)),
        }
    }
}

/// A buffer after the overrun guard: one longer than the limit is dropped.
pub open spec fn guarded(buf: Seq<u8>) -> Seq<u8> {
    if buf.len() > MAX_BUFFERED {
        Seq::empty()
    } else {
        buf
    }
}

enum Verdict {
    Partial,
    Garbage,
    Whole(Frame, usize),
}

spec fn verdict_is(v: Verdict, h: Head) -> bool {
    match v {
        Verdict::Partial => h is Partial,
        Verdict::Garbage => h is Garbage,
        Verdict::Whole(f, n) => h == Head::Whole(f@, n as int),
    }
}

fn copy_range(bytes: &Vec<u8>, from: usize, to: usize) -> (out: Vec<u8>)
    requires
        from <= to <= bytes@.len(),
    ensures
        out@ == bytes@.subrange(from as int, to as int),
{
    let mut out: Vec<u8> = Vec::new();
    let mut i: usize = from;
    while i < to
        invariant
            from <= i <= to <= bytes@.len(),
            out@ == bytes@.subrange(from as int, i as int),
        decreases to - i,
    {
        out.push(bytes[i]);
        assert(bytes@.subrange(from as int, i + 1) == bytes@.subrange(from as int, i as int).push(
            bytes@[i as int],
        ));
        i = i + 1;
    }
    out
}

fn test_checksum(buf: &Vec<u8>, msgid: u32, end: usize) -> (r: Option<bool>)
    requires
        1 <= end,
        end + 2 <= buf.len(),
    ensures
        r == checksum_holds(
            msgid,
            buf@.subrange(1, end as int),
            buf@[end as int],
            buf@[end + 1],
        ),
{
    match crc_extra(msgid) {
        Some(extra) => {
            let mut crc = X25Crc::new();
            crc.accumulate_range(buf.as_slice(), 1, end);
            let expected: u16 = crc.finalize_with_extra(extra);
            let got: u16 = (buf[end] as u16) | ((buf[end + 1] as u16) << 8);
            Some(expected == got)
        },
        None => None,
    }
}

fn inspect(buf: &Vec<u8>) -> (v: Verdict)
    requires
        buf@.len() > 0,
    ensures
        verdict_is(v, head_of(buf@)),
{
    if buf[0] == MAGIC_V2 {
        if buf.len() < V2_HEADER_LEN {
            return Verdict::Partial;
        }
        let len: usize = buf[1] as usize;
        if buf.len() < V2_HEADER_LEN + len + 2 {
            return Verdict::Partial;
        }
        let end: usize = V2_HEADER_LEN + len;
        let msgid: u32 = (buf[7] as u32) | ((buf[8] as u32) << 8) | ((buf[9] as u32) << 16);
        let holds = test_checksum(buf, msgid, end);
        let ok: bool = match holds {
            Some(b) => {
                if !b {
                    return Verdict::Garbage;
                }
                true
            },
            None => false,
        };
        let f = Frame {
            seq: buf[4],
            sysid: buf[5],
            compid: buf[6],
            msgid,
            payload: copy_range(buf, V2_HEADER_LEN, end),
            crc_ok: ok,
        };
        Verdict::Whole(f, end + 2)
    } else if buf[0] == MAGIC_V1 {
        if buf.len() < V1_HEADER_LEN {
            return Verdict::Partial;
        }
        let len: usize = buf[1] as usize;
        if buf.len() < V1_HEADER_LEN + len + 2 {
            return Verdict::Partial;
        }
        let end: usize = V1_HEADER_LEN + len;
        let msgid: u32 = buf[5] as u32;
        let holds = test_checksum(buf, msgid, end);
        let ok: bool = match holds {
            Some(b) => {
                if !b {
                    return Verdict::Garbage;
                }
                true
            },
            None => false,
        };
        let f = Frame {
            seq: buf[2],
            sysid: buf[3],
            compid: buf[4],
            msgid,
            payload: copy_range(buf, V1_HEADER_LEN, end),
            crc_ok: ok,
        };
        Verdict::Whole(f, end + 2)
    } else {
        Verdict::Garbage
    }
}

/// Incremental frame decoder that resynchronises past garbage and frames with
/// a bad checksum.
pub struct Decoder {
    buf: Vec<u8>,
}

impl View for Decoder {
    type V = Seq<u8>;

    closed spec fn view(&self) -> Seq<u8> {
        self.buf@
    }
}

impl Default for Decoder {
    fn default() -> (r: Self)
        ensures
            r@ == Seq::<u8>::empty(),
    {
        Decoder { buf: Vec::new() }
    }
}

impl Decoder {
    pub fn new() -> (r: Self)
        ensures
            r@ == Seq::<u8>::empty(),
    {
        Decoder { buf: Vec::new() }
    }

    /// Buffer received bytes.
    pub fn push(&mut self, bytes: &[u8])
        ensures
            final(self)@ == old(self)@ + bytes@,
    {
        self.buf.extend_from_slice(bytes);
        assert(self.buf@ =~= old(self).buf@ + bytes@);
    }

    /// How many bytes wait in the buffer.
    pub fn buffered(&self) -> (n: usize)
        ensures
            n == self@.len(),
    {
        self.buf.len()
    }

    /// Extract the next complete frame, resynchronising past garbage. A frame
    /// of an unknown message comes out with `crc_ok` false, so that unknown
    /// traffic can be counted without failing the stream.
    pub fn next_frame(&mut self) -> (r: Option<Frame>)
        ensures
            match r {
                Some(f) => first_frame(guarded(old(self)@)).0 == Some(f@),
                None => first_frame(guarded(old(self)@)).0 is None,
            },
            final(self)@ == first_frame(guarded(old(self)@)).1,
    {
        if self.buf.len() > MAX_BUFFERED {
            self.buf.clear();
        }
        assert(self.buf@ == guarded(old(self)@));
        loop
            invariant
                first_frame(self.buf@) == first_frame(guarded(old(self)@)),
            decreases self.buf@.len(),
        {
            if self.buf.len() == 0 {
                return None;
            }
            match inspect(&self.buf) {
                Verdict::Partial => {
                    return None;
                },
                Verdict::Garbage => {
                    let ghost before = self.buf@;
                    let _ = self.buf.remove(0);
                    assert(self.buf@ == before.drop_first());
                },
                Verdict::Whole(f, n) => {
                    let rest = self.buf.split_off(n);
                    self.buf = rest;
                    return Some(f);
                },
            }
        }
    }
}

// Laws.

proof fn wire_crc_rejoins(c: u16)
    ensures
        wire_crc(crc_low(c), crc_high(c)) == c,
{
    assert((((c & 0xff) as u8) as u16) | ((((c >> 8) as u8) as u16) << 8) == c) by (bit_vector);
}

proof fn msgid_rejoins(m: u32)
    requires
        m < 0x100_0000,
    ensures
        ((((m & 0xff) as u8) as u32) | ((msgid_byte(m, 8) as u32) << 8) | ((msgid_byte(m, 16)
            as u32) << 16)) == m,
{
    assert(m < 0x100_0000 ==> ((((m & 0xff) as u8) as u32) | (((((m >> 8) & 0xff) as u8) as u32)
        << 8) | (((((m >> 16) & 0xff) as u8) as u32) << 16)) == m) by (bit_vector);
}

/// The frame that a decoder reads back from an encoded one.
pub open spec fn as_received(f: FrameModel, seq: u8) -> FrameModel {
    FrameModel {
        seq,
        sysid: f.sysid,
        compid: f.compid,
        msgid: f.msgid,
        payload: trimmed(f.payload),
        crc_ok: crc_extra_of(f.msgid) is Some,
    }
}

/// A frame the v2 format can carry: its message id has three bytes, its
/// trimmed payload is counted by one.
pub open spec fn fits_v2(f: FrameModel) -> bool {
    f.msgid < 0x100_0000 && trimmed(f.payload).len() <= 255
}

/// What is decoded from an encoded frame is that frame, without the trailing
/// zero bytes of its payload, and what follows it stays buffered.
pub proof fn encoded_frame_is_read_back(f: FrameModel, seq: u8, extra: u8, rest: Seq<u8>)
    requires
        fits_v2(f),
        crc_extra_of(f.msgid) is Some ==> crc_extra_of(f.msgid) == Some(extra),
    ensures
        first_frame(v2_bytes(f, seq, extra) + rest) == (Some(as_received(f, seq)), rest),
{
    reveal(v2_bytes);
    let body = v2_covered(f, seq);
    let p = trimmed(f.payload);
    let crc = crc_byte(crc_of(body), extra);
    let buf = v2_bytes(f, seq, extra) + rest;
    let end = V2_HEADER_LEN + p.len();
    wire_crc_rejoins(crc);
    msgid_rejoins(f.msgid);
    assert(buf[0] == MAGIC_V2);
    assert(buf[1] == p.len() as u8);
    assert(buf.subrange(1, end) == body);
    assert(buf[end] == crc_low(crc));
    assert(buf[end + 1] == crc_high(crc));
    assert(v2_msgid(buf) == f.msgid);
    assert(buf.subrange(V2_HEADER_LEN as int, end) == p);
    assert(buf.subrange(end + 2, buf.len() as int) == rest);
}

/// An encoded frame that has not arrived whole is kept, and nothing comes out.
pub proof fn partial_frame_is_kept(f: FrameModel, seq: u8, extra: u8, n: int)
    requires
        fits_v2(f),
        0 <= n < v2_bytes(f, seq, extra).len(),
    ensures
        first_frame(v2_bytes(f, seq, extra).subrange(0, n)) == (
            None::<FrameModel>,
            v2_bytes(f, seq, extra).subrange(0, n),
        ),
{
    reveal(v2_bytes);
    let whole = v2_bytes(f, seq, extra);
    let buf = whole.subrange(0, n);
    if n > 0 {
        assert(buf[0] == whole[0]);
        if n > 1 {
            assert(buf[1] == whole[1]);
            assert(whole[1] == trimmed(f.payload).len() as u8);
        }
    }
}

/// Bytes that are no magic are passed over.
pub proof fn garbage_is_skipped(garbage: Seq<u8>, stream: Seq<u8>)
    requires
        forall|i: int|
            0 <= i < garbage.len() ==> garbage[i] != MAGIC_V2 && garbage[i] != MAGIC_V1,
    ensures
        first_frame(garbage + stream) == first_frame(stream),
    decreases garbage.len(),
{
    let buf = garbage + stream;
    if garbage.len() == 0 {
        assert(buf == stream);
    } else {
        assert(buf[0] == garbage[0]);
        assert(buf.drop_first() == garbage.drop_first() + stream);
        garbage_is_skipped(garbage.drop_first(), stream);
    }
}

/// A frame that comes out has a valid checksum exactly when its message is
/// known: no known message is ever handed on with a bad one.
pub proof fn known_frames_are_sound(buf: Seq<u8>)
    ensures
        first_frame(buf).0 matches Some(f) ==> f.crc_ok == (crc_extra_of(f.msgid) is Some),
    decreases buf.len(),
{
    if buf.len() > 0 && head_of(buf) is Garbage {
        known_frames_are_sound(buf.drop_first());
    }
}

/// Decoding only takes bytes off the front of the buffer, and a frame that
/// comes out took some.
pub proof fn decoding_consumes_a_prefix(buf: Seq<u8>)
    ensures
        first_frame(buf).1.len() <= buf.len(),
        first_frame(buf).1 == buf.subrange(
            buf.len() - first_frame(buf).1.len(),
            buf.len() as int,
        ),
        first_frame(buf).0 is Some ==> first_frame(buf).1.len() < buf.len(),
    decreases buf.len(),
{
    if buf.len() > 0 && head_of(buf) is Garbage {
        let tail = buf.drop_first();
        decoding_consumes_a_prefix(tail);
        let r = first_frame(tail).1;
        assert(tail.subrange(tail.len() - r.len(), tail.len() as int) == buf.subrange(
            buf.len() - r.len(),
            buf.len() as int,
        ));
    } else {
        assert(buf.subrange(0, buf.len() as int) == buf);
    }
}

/// What the head of a buffer is does not change once it can be told.
proof fn head_is_settled(a: Seq<u8>, b: Seq<u8>)
    requires
        a.len() > 0,
        !(head_of(a) is Partial),
    ensures
        head_of(a + b) == head_of(a),
{
    let s = a + b;
    assert(s[0] == a[0]);
    if a[0] == MAGIC_V2 {
        let end = V2_HEADER_LEN + a[1] as int;
        assert(s.subrange(1, end) =~= a.subrange(1, end));
        assert(s.subrange(V2_HEADER_LEN as int, end) =~= a.subrange(V2_HEADER_LEN as int, end));
        assert(v2_msgid(s) == v2_msgid(a));
        assert(s[end] == a[end] && s[end + 1] == a[end + 1]);
    } else if a[0] == MAGIC_V1 {
        let end = V1_HEADER_LEN + a[1] as int;
        assert(s.subrange(1, end) =~= a.subrange(1, end));
        assert(s.subrange(V1_HEADER_LEN as int, end) =~= a.subrange(V1_HEADER_LEN as int, end));
        assert(s[end] == a[end] && s[end + 1] == a[end + 1]);
    }
}

/// A decoder that stops for want of bytes goes on where it stopped: more bytes
/// give what they would have given had all arrived at once.
pub proof fn decoding_resumes(a: Seq<u8>, b: Seq<u8>)
    ensures
        match first_frame(a) {
            (Some(f), rest) => first_frame(a + b) == (Some(f), rest + b),
            (None, rest) => first_frame(a + b) == first_frame(rest + b),
        },
    decreases a.len(),
{
    if a.len() > 0 {
        let s = a + b;
        match head_of(a) {
            Head::Partial => {},
            Head::Garbage => {
                head_is_settled(a, b);
                decoding_resumes(a.drop_first(), b);
                assert(s.drop_first() =~= a.drop_first() + b);
            },
            Head::Whole(f, n) => {
                head_is_settled(a, b);
                assert(s.subrange(n, s.len() as int) =~= a.subrange(n, a.len() as int) + b);
            },
        }
    }
}

proof fn decoding_leaves_little(buf: Seq<u8>)
    ensures
        ({
            let (f, rest) = first_frame(buf);
            &&& f is None ==> rest.len() < V2_HEADER_LEN + 255 + 2
            &&& f matches Some(g) ==> rest.len() + g.payload.len() + V1_HEADER_LEN + 2 <= buf.len()
        }),
    decreases buf.len(),
{
    if buf.len() > 0 && head_of(buf) is Garbage {
        decoding_leaves_little(buf.drop_first());
    }
}

/// After the decoder has handed out what it could, less than one longest frame
/// stays buffered; and a frame that it hands out takes its payload, the shorter
/// header and the checksum out of the buffer, or more.
pub proof fn buffer_stays_bounded(buf: Seq<u8>)
    ensures
        ({
            let (f, rest) = first_frame(guarded(buf));
            &&& rest.len() <= MAX_BUFFERED
            &&& f is None ==> rest.len() <= 266
            &&& f matches Some(g) ==> rest.len() + g.payload.len() + 8 <= buf.len()
        }),
{
    decoding_consumes_a_prefix(guarded(buf));
    decoding_leaves_little(guarded(buf));
}

/// A frame of a known message with one byte changed in flight is not accepted
/// where it stands, unless the change hits the magic, the length or the
/// message id (a changed id is checked against another extra byte).
pub proof fn altered_frame_is_rejected(
    f: FrameModel,
    seq: u8,
    extra: u8,
    i: int,
    b: u8,
    rest: Seq<u8>,
)
    requires
        fits_v2(f),
        crc_extra_of(f.msgid) == Some(extra),
        2 <= i < 7 || V2_HEADER_LEN <= i < v2_bytes(f, seq, extra).len(),
        b != v2_bytes(f, seq, extra)[i],
    ensures
        head_of(v2_bytes(f, seq, extra).update(i, b) + rest) is Garbage,
{
    reveal(v2_bytes);
    let body = v2_covered(f, seq);
    let p = trimmed(f.payload);
    let crc = crc_byte(crc_of(body), extra);
    let good = v2_bytes(f, seq, extra);
    let buf = good.update(i, b) + rest;
    let end = V2_HEADER_LEN + p.len();
    msgid_rejoins(f.msgid);
    assert(buf[0] == MAGIC_V2);
    assert(buf[1] == p.len() as u8);
    assert(buf[7] == good[7] && buf[8] == good[8] && buf[9] == good[9]);
    assert(v2_msgid(buf) == f.msgid);
    let lo = crc_low(crc);
    let hi = crc_high(crc);
    wire_crc_rejoins(crc);
    if i < end {
        assert(buf.subrange(1, end) == body.update(i - 1, b));
        crate::crc::crc_detects_one_changed_byte(body, i - 1, b);
        assert(buf[end] == lo && buf[end + 1] == hi);
        if crc_byte(crc_of(body.update(i - 1, b)), extra) == crc {
            crc_byte_injective(crc_of(body.update(i - 1, b)), extra, crc_of(body), extra);
        }
    } else {
        assert(buf.subrange(1, end) == body);
        let l2 = buf[end];
        let h2 = buf[end + 1];
        assert(l2 != lo || h2 != hi);
        assert((l2 != lo || h2 != hi) ==> (l2 as u16) | ((h2 as u16) << 8) != (lo as u16) | ((
        hi as u16) << 8)) by (bit_vector);
    }
}

} // verus!
