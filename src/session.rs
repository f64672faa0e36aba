use vstd::prelude::*;
use vstd::utf8::{decode_utf8, valid_utf8};

use crate::callsign::encoded;
use crate::frame::{
    ackn_opcode, disc_opcode, has_opcode, nack_opcode, parse_frame, parsed, ping_opcode, Frame,
    FrameModel,
};
use crate::hub::{ModuleInfo, ModuleInfoModel, WsPayload, WsPayloadModel};
use crate::payloads::{
    conn_payload, create_conn_payload, create_pong_payload, pong_opcode, pong_payload,
};
use crate::text::{copy_bytes, copy_string, string_from_utf8};

verus! {

/// Seconds of silence after which the session links again.
pub const KEEPALIVE_TIMEOUT_SECS: u64 = 60;

/// Seconds without a voice frame after which a QSO is over.
pub const QSO_IDLE_SECS: u64 = 1;

/// Most text messages a session keeps; the oldest leaves first.
pub const MESSAGE_RING_CAPACITY: usize = 64;

/// A text message heard on a module.
pub struct MsgData {
    pub callsign: String,
    pub message: String,
    pub timestamp: u64,
}

/// The mathematical value of a [`MsgData`].
pub struct MsgModel {
    pub callsign: Seq<char>,
    pub message: Seq<char>,
    pub timestamp: u64,
}

impl View for MsgData {
    type V = MsgModel;

    open spec fn view(&self) -> MsgModel {
        MsgModel { callsign: self.callsign@, message: self.message@, timestamp: self.timestamp }
    }
}

impl MsgData {
    /// A copy of this message.
    pub fn duplicate(&self) -> (r: MsgData)
        ensures
            r@ == self@,
    {
        MsgData {
            callsign: copy_string(&self.callsign),
            message: copy_string(&self.message),
            timestamp: self.timestamp,
        }
    }
}

/// The views of a list of messages.
pub open spec fn messages_view(ms: Seq<MsgData>) -> Seq<MsgModel> {
    ms.map_values(|m: MsgData| m@)
}

/// A copy of a list of messages.
pub fn copy_messages(ms: &Vec<MsgData>) -> (r: Vec<MsgData>)
    ensures
        messages_view(r@) == messages_view(ms@),
{
    let mut out: Vec<MsgData> = Vec::new();
    let mut i: usize = 0;
    while i < ms.len()
        invariant
            i <= ms@.len(),
            out@.len() == i,
            forall|k: int| 0 <= k < i ==> (#[trigger] out@[k])@ == ms@[k]@,
        decreases ms@.len() - i,
    {
        out.push(ms[i].duplicate());
        i = i + 1;
    }
    assert(messages_view(out@) =~= messages_view(ms@));
    out
}

/// The station of the current (or last) QSO and when it was last heard.
pub struct QsoMeta {
    pub callsign: String,
    pub timestamp: u64,
}

/// The link to one module of one reflector.
pub struct ReflectorConnection {
    pub reflector: String,
    pub module: String,
    /// `host:port` of the reflector.
    pub address: String,
    /// Seconds since the epoch when the reflector was last heard; 0 for never.
    pub last_heard: u64,
    pub active_qso: bool,
    pub active_qso_meta: QsoMeta,
    /// Recent text messages, oldest first.
    pub messages: Vec<MsgData>,
}

/// The mathematical value of a [`ReflectorConnection`].
pub struct SessionModel {
    pub reflector: Seq<char>,
    pub module: Seq<char>,
    pub address: Seq<char>,
    pub last_heard: u64,
    pub active_qso: bool,
    pub qso_call: Seq<char>,
    pub qso_time: u64,
    pub messages: Seq<MsgModel>,
}

impl View for ReflectorConnection {
    type V = SessionModel;

    open spec fn view(&self) -> SessionModel {
        SessionModel {
            reflector: self.reflector@,
            module: self.module@,
            address: self.address@,
            last_heard: self.last_heard,
            active_qso: self.active_qso,
            qso_call: self.active_qso_meta.callsign@,
            qso_time: self.active_qso_meta.timestamp,
            messages: messages_view(self.messages@),
        }
    }
}

/// `m` added at the end of the ring `ms`, the oldest message leaving when the ring is full.
pub open spec fn ring_push(ms: Seq<MsgModel>, m: MsgModel) -> Seq<MsgModel> {
    if ms.len() >= MESSAGE_RING_CAPACITY {
        ms.drop_first().push(m)
    } else {
        ms.push(m)
    }
}

/// The session after it received a datagram that carries frame `f` at time `now`.
pub open spec fn after_frame(s: SessionModel, f: FrameModel, now: u64) -> SessionModel {
    match f {
        FrameModel::LinkDown => SessionModel { last_heard: 0, ..s },
        FrameModel::Voice { src, .. } => SessionModel {
            last_heard: now,
            active_qso: true,
            qso_call: src,
            qso_time: now,
            ..s
        },
        FrameModel::Text { src, payload, .. } => SessionModel {
            last_heard: now,
            active_qso: true,
            qso_call: src,
            qso_time: now,
            messages: if valid_utf8(payload) {
                ring_push(
                    s.messages,
                    MsgModel { callsign: src, message: decode_utf8(payload), timestamp: now },
                )
            } else {
                s.messages
            },
            ..s
        },
        FrameModel::Unknown => s,
        _ => SessionModel { last_heard: now, ..s },
    }
}

/// The event that the hub routes for frame `f` heard by session `s`.
pub open spec fn event_for(s: SessionModel, f: FrameModel) -> Option<WsPayloadModel> {
    match f {
        FrameModel::Voice { src, dst, c2, is_last } => Some(
            WsPayloadModel {
                reflector: s.reflector,
                module: s.module,
                src_call: src,
                dest_call: dst,
                c2_stream: c2,
                pm_stream: Seq::empty(),
                done: is_last,
            },
        ),
        FrameModel::Text { src, dst, payload, is_last } => Some(
            WsPayloadModel {
                reflector: s.reflector,
                module: s.module,
                src_call: src,
                dest_call: dst,
                c2_stream: Seq::empty(),
                pm_stream: payload,
                done: is_last,
            },
        ),
        _ => None,
    }
}

/// The datagram sent back for frame `f`: a `PONG` for each keepalive.
pub open spec fn reply_for(f: FrameModel, callsign: Seq<char>) -> Option<Seq<u8>> {
    match f {
        FrameModel::Keepalive => Some(pong_payload(callsign)),
        _ => None,
    }
}

/// Frame `f` changes what info subscribers are shown.
pub open spec fn changes_status(f: FrameModel) -> bool {
    f is Voice || f is Text
}

/// What handling one datagram asks of the caller.
pub struct DatagramOutcome {
    /// A datagram to send back to the reflector.
    pub reply: Option<Vec<u8>>,
    /// An event to route to the stream subscribers of this session's module.
    pub event: Option<WsPayload>,
    /// Info subscribers are owed a new snapshot.
    pub status_changed: bool,
}

pub open spec fn bytes_option_view(o: Option<Vec<u8>>) -> Option<Seq<u8>> {
    match o {
        Some(v) => Some(v@),
        None => None,
    }
}

pub open spec fn payload_option_view(o: Option<WsPayload>) -> Option<WsPayloadModel> {
    match o {
        Some(p) => Some(p@),
        None => None,
    }
}

/// Whether the session links again at time `now`: never heard, or silent long enough.
pub open spec fn needs_connect(s: SessionModel, now: u64) -> bool {
    s.last_heard == 0 || (now >= s.last_heard && now - s.last_heard >= KEEPALIVE_TIMEOUT_SECS)
}

/// Whether the QSO of the session is over at time `now`.
pub open spec fn qso_expired(s: SessionModel, now: u64) -> bool {
    s.active_qso && now >= s.qso_time && now - s.qso_time >= QSO_IDLE_SECS
}

/// The session after a keepalive tick at time `now`.
pub open spec fn after_tick(s: SessionModel, now: u64) -> SessionModel {
    SessionModel {
        last_heard: if needs_connect(s, now) {
            now
        } else {
            s.last_heard
        },
        active_qso: s.active_qso && !qso_expired(s, now),
        ..s
    }
}

/// What a keepalive tick asks of the caller.
pub struct TickOutcome {
    /// The `LSTN` datagram to send, when the session links again.
    pub lstn: Option<Vec<u8>>,
    /// Info subscribers are owed a new snapshot.
    pub status_changed: bool,
}

impl ReflectorConnection {
    /// The message ring is within its bound.
    pub open spec fn wf(&self) -> bool {
        self.messages@.len() <= MESSAGE_RING_CAPACITY
    }

    /// A session that has never heard its reflector.
    pub fn new(reflector: String, module: String, address: String) -> (r: ReflectorConnection)
        ensures
            r.wf(),
            r@ == (SessionModel {
                reflector: reflector@,
                module: module@,
                address: address@,
                last_heard: 0,
                active_qso: false,
                qso_call: Seq::empty(),
                qso_time: 0,
                messages: Seq::empty(),
            }),
    {
        let r = ReflectorConnection {
            reflector,
            module,
            address,
            last_heard: 0,
            active_qso: false,
            active_qso_meta: QsoMeta { callsign: String::new(), timestamp: 0 },
            messages: Vec::new(),
        };
        assert(messages_view(r.messages@) =~= Seq::<MsgModel>::empty());
        r
    }

    fn push_message(&mut self, m: MsgData)
        requires
            old(self).wf(),
        ensures
            final(self).wf(),
            final(self)@ == (SessionModel {
                messages: ring_push(old(self)@.messages, m@),
                ..old(self)@
            }),
    {
        let ghost before = messages_view(self.messages@);
        if self.messages.len() >= MESSAGE_RING_CAPACITY {
            self.messages.remove(0);
            assert(messages_view(self.messages@) =~= before.drop_first());
        }
        self.messages.push(m);
        assert(messages_view(self.messages@) =~= ring_push(before, m@));
    }

    /// Handles one datagram received from the reflector at time `now`.
    pub fn handle_datagram(&mut self, buf: &[u8], callsign: &String, now: u64) -> (r: DatagramOutcome)
        requires
            old(self).wf(),
        ensures
            final(self).wf(),
            final(self)@ == after_frame(old(self)@, parsed(buf@), now),
            bytes_option_view(r.reply) == reply_for(parsed(buf@), callsign@),
            payload_option_view(r.event) == event_for(old(self)@, parsed(buf@)),
            r.status_changed == changes_status(parsed(buf@)),
    {
        let frame = parse_frame(buf);
        match frame {
            Frame::LinkDown => {
                self.last_heard = 0;
                DatagramOutcome { reply: None, event: None, status_changed: false }
            },
            Frame::Keepalive => {
                self.last_heard = now;
                let pong = create_pong_payload(copy_string(callsign));
                DatagramOutcome { reply: Some(pong), event: None, status_changed: false }
            },
            Frame::Voice(v) => {
                self.last_heard = now;
                self.active_qso = true;
                self.active_qso_meta = QsoMeta { callsign: copy_string(&v.src_call), timestamp: now };
                let event = WsPayload {
                    reflector: copy_string(&self.reflector),
                    module: copy_string(&self.module),
                    src_call: v.src_call,
                    dest_call: v.dest_call,
                    c2_stream: v.c2,
                    pm_stream: Vec::new(),
                    done: v.is_last,
                };
                DatagramOutcome { reply: None, event: Some(event), status_changed: true }
            },
            Frame::Text(t) => {
                self.last_heard = now;
                self.active_qso = true;
                self.active_qso_meta = QsoMeta { callsign: copy_string(&t.src_call), timestamp: now };
                match string_from_utf8(copy_bytes(&t.payload)) {
                    Some(text) => {
                        self.push_message(
                            MsgData { callsign: copy_string(&t.src_call), message: text, timestamp: now },
                        );
                    },
                    None => {},
                }
                let event = WsPayload {
                    reflector: copy_string(&self.reflector),
                    module: copy_string(&self.module),
                    src_call: t.src_call,
                    dest_call: t.dest_call,
                    c2_stream: Vec::new(),
                    pm_stream: t.payload,
                    done: t.is_last,
                };
                DatagramOutcome { reply: None, event: Some(event), status_changed: true }
            },
            Frame::Unknown => DatagramOutcome { reply: None, event: None, status_changed: false },
            _ => {
                self.last_heard = now;
                DatagramOutcome { reply: None, event: None, status_changed: false }
            },
        }
    }

    /// The periodic keepalive tick at time `now`: links again after silence, and ends an idle QSO.
    pub fn tick(&mut self, callsign: &String, now: u64) -> (r: TickOutcome)
        requires
            old(self).wf(),
        ensures
            final(self).wf(),
            final(self)@ == after_tick(old(self)@, now),
            r.lstn.is_some() == needs_connect(old(self)@, now),
            r.lstn matches Some(p) ==> p@ == conn_payload(callsign@, old(self)@.module),
            r.status_changed == qso_expired(old(self)@, now),
    {
        let connect = self.last_heard == 0 || (now >= self.last_heard && now - self.last_heard
            >= KEEPALIVE_TIMEOUT_SECS);
        let lstn = if connect {
            self.last_heard = now;
            Some(create_conn_payload(copy_string(callsign), copy_string(&self.module)))
        } else {
            None
        };
        let expired = self.active_qso && now >= self.active_qso_meta.timestamp && now
            - self.active_qso_meta.timestamp >= QSO_IDLE_SECS;
        if expired {
            self.active_qso = false;
        }
        TickOutcome { lstn, status_changed: expired }
    }

    /// This session as info subscribers are shown it.
    pub fn module_info(&self) -> (r: ModuleInfo)
        ensures
            r@ == info_of(self@),
    {
        ModuleInfo {
            reflector: copy_string(&self.reflector),
            module: copy_string(&self.module),
            last_heard: self.last_heard,
            last_qso_call: copy_string(&self.active_qso_meta.callsign),
            last_qso_time: self.active_qso_meta.timestamp,
            active_qso: self.active_qso,
            messages: copy_messages(&self.messages),
        }
    }
}

/// What info subscribers are shown of session `s`.
pub open spec fn info_of(s: SessionModel) -> ModuleInfoModel {
    ModuleInfoModel {
        reflector: s.reflector,
        module: s.module,
        last_heard: s.last_heard,
        last_qso_call: s.qso_call,
        last_qso_time: s.qso_time,
        active_qso: s.active_qso,
        messages: s.messages,
    }
}

/// A session silent for the keepalive timeout links again at the next tick, and only once: a
/// second tick at the same time sends no further `LSTN`.
pub proof fn lemma_keepalive_relinks_once(s: SessionModel, now: u64)
    requires
        now >= s.last_heard,
        now - s.last_heard >= KEEPALIVE_TIMEOUT_SECS,
    ensures
        needs_connect(s, now),
        !needs_connect(after_tick(s, now), now),
{
}

/// After a `DISC` the next tick links again, whatever the time.
pub proof fn lemma_disc_forces_relink(s: SessionModel, buf: Seq<u8>, now: u64, later: u64)
    requires
        has_opcode(buf, disc_opcode()),
    ensures
        needs_connect(after_frame(s, parsed(buf), now), later),
{
    assert(!has_opcode(buf, ackn_opcode()));
    assert(!has_opcode(buf, nack_opcode()));
}

/// Every `PING` is answered by one 10-byte `PONG` that carries the encoded callsign.
pub proof fn lemma_ping_answered(buf: Seq<u8>, callsign: Seq<char>)
    requires
        has_opcode(buf, ping_opcode()),
    ensures
        reply_for(parsed(buf), callsign) == Some(pong_payload(callsign)),
        pong_payload(callsign).len() == 10,
        pong_payload(callsign).take(4) == pong_opcode(),
        pong_payload(callsign).subrange(4, 10) == encoded(callsign),
{
    assert(!has_opcode(buf, ackn_opcode()));
    assert(!has_opcode(buf, nack_opcode()));
    assert(!has_opcode(buf, disc_opcode()));
    assert(pong_payload(callsign).take(4) =~= pong_opcode());
    assert(pong_payload(callsign).subrange(4, 10) =~= encoded(callsign));
}

/// A datagram that the parser does not know leaves the session as it was and routes nothing.
pub proof fn lemma_unknown_leaves_session(s: SessionModel, buf: Seq<u8>, now: u64)
    requires
        parsed(buf) is Unknown,
    ensures
        after_frame(s, parsed(buf), now) == s,
        event_for(s, parsed(buf)) is None,
{
}

/// After a tick, a QSO that is still active was heard less than the idle time ago.
pub proof fn lemma_tick_ends_idle_qso(s: SessionModel, now: u64)
    ensures
        after_tick(s, now).active_qso ==> !(now >= s.qso_time && now - s.qso_time
            >= QSO_IDLE_SECS),
{
}

/// Every voice frame and text packet is a status change: info subscribers are sent a new
/// snapshot.
pub proof fn lemma_frames_change_status(buf: Seq<u8>)
    requires
        parsed(buf) is Voice || parsed(buf) is Text,
    ensures
        changes_status(parsed(buf)),
{
}

} // verus!
