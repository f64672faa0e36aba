use vstd::prelude::*;

use crate::callsign::{decode_callsign, decoded};

verus! {

/// Offset of the first byte of a packet payload.
pub const PACKET_PAYLOAD_START: usize = 35;

/// Shortest voice datagram that holds the Codec-2 payload.
pub const VOICE_MIN_LEN: usize = 52;

/// Offset of the frame-number byte whose top bit marks the last frame.
pub const FRAME_NUMBER_OFFSET: usize = 34;

pub open spec fn ackn_opcode() -> Seq<u8> {
    seq![0x41u8, 0x43, 0x4B, 0x4E]
}

pub open spec fn nack_opcode() -> Seq<u8> {
    seq![0x4Eu8, 0x41, 0x43, 0x4B]
}

pub open spec fn ping_opcode() -> Seq<u8> {
    seq![0x50u8, 0x49, 0x4E, 0x47]
}

pub open spec fn disc_opcode() -> Seq<u8> {
    seq![0x44u8, 0x49, 0x53, 0x43]
}

/// `M17 `: a stream (voice) datagram.
pub open spec fn voice_opcode() -> Seq<u8> {
    seq![0x4Du8, 0x31, 0x37, 0x20]
}

/// `M17P`: a packet datagram.
pub open spec fn packet_opcode() -> Seq<u8> {
    seq![0x4Du8, 0x31, 0x37, 0x50]
}

/// `s` without its trailing zero bytes.
pub open spec fn strip_trailing_zeros(s: Seq<u8>) -> Seq<u8>
    decreases s.len(),
{
    if s.len() > 0 && s.last() == 0 {
        strip_trailing_zeros(s.drop_last())
    } else {
        s
    }
}

/// A voice frame of an `M17 ` datagram.
pub struct VoiceFrame {
    pub src_call: String,
    pub dest_call: String,
    /// The 16 Codec-2 bytes.
    pub c2: Vec<u8>,
    pub is_last: bool,
}

/// The payload of an `M17P` datagram.
pub struct TextPacket {
    pub src_call: String,
    pub dest_call: String,
    /// The payload, trailing zero bytes removed.
    pub payload: Vec<u8>,
    pub is_last: bool,
}

/// What one datagram from a reflector says.
pub enum Frame {
    /// `ACKN`: the reflector accepted the link.
    LinkUp,
    /// `NACK`: the reflector refused the link.
    LinkRefused,
    /// `DISC`: the reflector dropped the link.
    LinkDown,
    /// `PING`: keepalive from the reflector.
    Keepalive,
    Voice(VoiceFrame),
    Text(TextPacket),
    /// An unknown opcode, or a datagram too short for its opcode.
    Unknown,
}

/// The mathematical value of a [`Frame`].
pub enum FrameModel {
    LinkUp,
    LinkRefused,
    LinkDown,
    Keepalive,
    Voice { src: Seq<char>, dst: Seq<char>, c2: Seq<u8>, is_last: bool },
    Text { src: Seq<char>, dst: Seq<char>, payload: Seq<u8>, is_last: bool },
    Unknown,
}

impl View for Frame {
    type V = FrameModel;

    open spec fn view(&self) -> FrameModel {
        match self {
            Frame::LinkUp => FrameModel::LinkUp,
            Frame::LinkRefused => FrameModel::LinkRefused,
            Frame::LinkDown => FrameModel::LinkDown,
            Frame::Keepalive => FrameModel::Keepalive,
            Frame::Voice(v) => FrameModel::Voice {
                src: v.src_call@,
                dst: v.dest_call@,
                c2: v.c2@,
                is_last: v.is_last,
            },
            Frame::Text(t) => FrameModel::Text {
                src: t.src_call@,
                dst: t.dest_call@,
                payload: t.payload@,
                is_last: t.is_last,
            },
            Frame::Unknown => FrameModel::Unknown,
        }
    }
}

/// The first four bytes of `buf` are `op`.
pub open spec fn has_opcode(buf: Seq<u8>, op: Seq<u8>) -> bool {
    buf.len() >= 4 && buf.take(4) == op
}

/// The frame that datagram `buf` carries.
pub open spec fn parsed(buf: Seq<u8>) -> FrameModel {
    if has_opcode(buf, ackn_opcode()) {
        FrameModel::LinkUp
    } else if has_opcode(buf, nack_opcode()) {
        FrameModel::LinkRefused
    } else if has_opcode(buf, disc_opcode()) {
        FrameModel::LinkDown
    } else if has_opcode(buf, ping_opcode()) {
        FrameModel::Keepalive
    } else if has_opcode(buf, voice_opcode()) && buf.len() >= 52 {
        FrameModel::Voice {
            src: decoded(buf.subrange(12, 18)),
            dst: decoded(buf.subrange(6, 12)),
            c2: buf.subrange(36, 52),
            is_last: buf[34] >= 0x80,
        }
    } else if has_opcode(buf, packet_opcode()) && buf.len() >= 35 {
        FrameModel::Text {
            src: decoded(buf.subrange(10, 16)),
            dst: decoded(buf.subrange(4, 10)),
            payload: strip_trailing_zeros(buf.subrange(35, buf.len() as int)),
            is_last: buf[34] >= 0x80,
        }
    } else {
        FrameModel::Unknown
    }
}

fn opcode_matches(buf: &[u8], a: u8, b: u8, c: u8, d: u8) -> (r: bool)
    ensures
        r == has_opcode(buf@, seq![a, b, c, d]),
{
    if buf.len() < 4 {
        return false;
    }
    let r = buf[0] == a && buf[1] == b && buf[2] == c && buf[3] == d;
    assert(r ==> buf@.take(4) =~= seq![a, b, c, d]);
    assert(buf@.take(4) == seq![a, b, c, d] ==> buf@.take(4)[0] == a && buf@.take(4)[1] == b
        && buf@.take(4)[2] == c && buf@.take(4)[3] == d);
    r
}

/// A copy of `buf[from..to]`.
pub fn copy_range(buf: &[u8], from: usize, to: usize) -> (r: Vec<u8>)
    requires
        from <= to <= buf@.len(),
    ensures
        r@ == buf@.subrange(from as int, to as int),
{
    let mut out: Vec<u8> = Vec::new();
    let mut i = from;
    while i < to
        invariant
            from <= i <= to <= buf@.len(),
            out@ == buf@.subrange(from as int, i as int),
        decreases to - i,
    {
        out.push(buf[i]);
        i = i + 1;
        assert(out@ =~= buf@.subrange(from as int, i as int));
    }
    out
}

proof fn lemma_strip_at(s: Seq<u8>, k: int)
    requires
        0 <= k <= s.len(),
        forall|i: int| k <= i < s.len() ==> s[i] == 0,
        k == 0 || s[k - 1] != 0,
    ensures
        strip_trailing_zeros(s) == s.take(k),
    decreases s.len() - k,
{
    if k == s.len() {
        assert(s.take(k) =~= s);
    } else {
        let t = s.drop_last();
        assert(k == 0 || t[k - 1] == s[k - 1]);
        lemma_strip_at(t, k);
        assert(t.take(k) =~= s.take(k));
    }
}

/// One past the last nonzero byte of `buf` at or after `from`, or `from` if there is none.
fn payload_end(buf: &[u8], from: usize) -> (k: usize)
    requires
        from <= buf@.len(),
    ensures
        from <= k <= buf@.len(),
        strip_trailing_zeros(buf@.subrange(from as int, buf@.len() as int)) == buf@.subrange(
            from as int,
            k as int,
        ),
{
    let mut k = buf.len();
    while k > from && buf[k - 1] == 0
        invariant
            from <= k <= buf@.len(),
            forall|i: int| k <= i < buf@.len() ==> buf@[i] == 0,
        decreases k,
    {
        k = k - 1;
    }
    proof {
        let s = buf@.subrange(from as int, buf@.len() as int);
        lemma_strip_at(s, k - from);
        assert(s.take(k - from) =~= buf@.subrange(from as int, k as int));
    }
    k
}

/// Reads one datagram from a reflector.
pub fn parse_frame(buf: &[u8]) -> (r: Frame)
    ensures
        r@ == parsed(buf@),
{
    if opcode_matches(buf, 0x41, 0x43, 0x4B, 0x4E) {
        Frame::LinkUp
    } else if opcode_matches(buf, 0x4E, 0x41, 0x43, 0x4B) {
        Frame::LinkRefused
    } else if opcode_matches(buf, 0x44, 0x49, 0x53, 0x43) {
        Frame::LinkDown
    } else if opcode_matches(buf, 0x50, 0x49, 0x4E, 0x47) {
        Frame::Keepalive
    } else if opcode_matches(buf, 0x4D, 0x31, 0x37, 0x20) && buf.len() >= VOICE_MIN_LEN {
        Frame::Voice(
            VoiceFrame {
                src_call: decode_callsign(&buf[12..18]),
                dest_call: decode_callsign(&buf[6..12]),
                c2: copy_range(buf, 36, 52),
                is_last: buf[FRAME_NUMBER_OFFSET] >= 0x80,
            },
        )
    } else if opcode_matches(buf, 0x4D, 0x31, 0x37, 0x50) && buf.len() >= PACKET_PAYLOAD_START {
        let end = payload_end(buf, PACKET_PAYLOAD_START);
        Frame::Text(
            TextPacket {
                src_call: decode_callsign(&buf[10..16]),
                dest_call: decode_callsign(&buf[4..10]),
                payload: copy_range(buf, PACKET_PAYLOAD_START, end),
                is_last: buf[FRAME_NUMBER_OFFSET] >= 0x80,
            },
        )
    } else {
        Frame::Unknown
    }
}

/// `n` zero bytes.
pub open spec fn zeros(n: nat) -> Seq<u8> {
    Seq::new(n, |i: int| 0u8)
}

proof fn lemma_strip_zeros_appended(s: Seq<u8>, n: nat)
    ensures
        strip_trailing_zeros(s + zeros(n)) == strip_trailing_zeros(s),
    decreases n,
{
    if n > 0 {
        let t = s + zeros(n);
        assert(t.last() == 0);
        assert(t.drop_last() =~= s + zeros((n - 1) as nat));
        lemma_strip_zeros_appended(s, (n - 1) as nat);
    } else {
        assert(s + zeros(0) =~= s);
    }
}

proof fn lemma_strip_shape(s: Seq<u8>)
    ensures
        strip_trailing_zeros(s).len() <= s.len(),
        strip_trailing_zeros(s) == s.take(strip_trailing_zeros(s).len() as int),
        strip_trailing_zeros(s).len() == 0 || strip_trailing_zeros(s).last() != 0,
        forall|i: int| strip_trailing_zeros(s).len() <= i < s.len() ==> s[i] == 0,
    decreases s.len(),
{
    if s.len() > 0 && s.last() == 0 {
        let t = s.drop_last();
        lemma_strip_shape(t);
        let p = strip_trailing_zeros(t);
        assert(p == s.take(p.len() as int)) by {
            assert(t.take(p.len() as int) =~= s.take(p.len() as int));
        }
        assert forall|i: int| p.len() <= i < s.len() implies s[i] == 0 by {
            if i < t.len() {
                assert(t[i] == s[i]);
            }
        }
    } else {
        assert(s.take(s.len() as int) =~= s);
    }
}

/// Zero bytes appended to a packet datagram change nothing that the parser reads from it: two
/// datagrams that carry the same payload with different counts of trailing zeros parse alike.
pub proof fn lemma_packet_zero_padding(buf: Seq<u8>, n: nat)
    requires
        has_opcode(buf, packet_opcode()),
        buf.len() >= 35,
    ensures
        parsed(buf + zeros(n)) == parsed(buf),
{
    let b = buf + zeros(n);
    assert(b.take(4) =~= buf.take(4));
    assert(b.subrange(4, 10) =~= buf.subrange(4, 10));
    assert(b.subrange(10, 16) =~= buf.subrange(10, 16));
    assert(b[34] == buf[34]);
    assert(b.subrange(35, b.len() as int) =~= buf.subrange(35, buf.len() as int) + zeros(n));
    lemma_strip_zeros_appended(buf.subrange(35, buf.len() as int), n);
}

/// The payload of a packet datagram is `buf[35..k]`, where `k` is one past its last nonzero byte
/// (35 if there is none).
pub proof fn lemma_packet_payload_bounds(buf: Seq<u8>)
    requires
        has_opcode(buf, packet_opcode()),
        buf.len() >= 35,
    ensures
        parsed(buf) matches FrameModel::Text { payload, .. } && {
            let k = 35 + payload.len() as int;
            &&& k <= buf.len()
            &&& payload == buf.subrange(35, k)
            &&& (k == 35 || buf[k - 1] != 0)
            &&& forall|i: int| k <= i < buf.len() ==> buf[i] == 0
        },
{
    let s = buf.subrange(35, buf.len() as int);
    lemma_strip_shape(s);
    let p = strip_trailing_zeros(s);
    assert(s.take(p.len() as int) =~= buf.subrange(35, 35 + p.len() as int));
    assert forall|i: int| 35 + p.len() <= i < buf.len() implies buf[i] == 0 by {
        assert(s[i - 35] == buf[i]);
    }
    assert(p.len() == 0 || p.last() == buf[35 + p.len() - 1]);
    assert(!has_opcode(buf, ackn_opcode()));
    assert(!has_opcode(buf, nack_opcode()));
    assert(!has_opcode(buf, disc_opcode()));
    assert(!has_opcode(buf, ping_opcode()));
    assert(!has_opcode(buf, voice_opcode()));
}

} // verus!
