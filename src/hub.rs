use vstd::prelude::*;

use crate::session::{messages_view, MsgData, MsgModel};
use crate::text::{
    chars_of, nonempty_parts, parts_view, split_chars, split_on, string_of, to_uppercase,
    uppercase_of,
};

verus! {

/// A voice frame or text packet as stream subscribers receive it.
pub struct WsPayload {
    pub reflector: String,
    pub module: String,
    pub src_call: String,
    pub dest_call: String,
    /// Codec-2 bytes; empty for text packets.
    pub c2_stream: Vec<u8>,
    /// Packet payload bytes; empty for voice frames.
    pub pm_stream: Vec<u8>,
    pub done: bool,
}

/// The mathematical value of a [`WsPayload`].
pub struct WsPayloadModel {
    pub reflector: Seq<char>,
    pub module: Seq<char>,
    pub src_call: Seq<char>,
    pub dest_call: Seq<char>,
    pub c2_stream: Seq<u8>,
    pub pm_stream: Seq<u8>,
    pub done: bool,
}

impl View for WsPayload {
    type V = WsPayloadModel;

    open spec fn view(&self) -> WsPayloadModel {
        WsPayloadModel {
            reflector: self.reflector@,
            module: self.module@,
            src_call: self.src_call@,
            dest_call: self.dest_call@,
            c2_stream: self.c2_stream@,
            pm_stream: self.pm_stream@,
            done: self.done,
        }
    }
}

/// The status of one bridged module, as info subscribers receive it.
pub struct ModuleInfo {
    pub reflector: String,
    pub module: String,
    pub last_heard: u64,
    pub last_qso_call: String,
    pub last_qso_time: u64,
    pub active_qso: bool,
    /// Recent text messages, oldest first.
    pub messages: Vec<MsgData>,
}

/// The mathematical value of a [`ModuleInfo`].
pub struct ModuleInfoModel {
    pub reflector: Seq<char>,
    pub module: Seq<char>,
    pub last_heard: u64,
    pub last_qso_call: Seq<char>,
    pub last_qso_time: u64,
    pub active_qso: bool,
    pub messages: Seq<MsgModel>,
}

impl View for ModuleInfo {
    type V = ModuleInfoModel;

    open spec fn view(&self) -> ModuleInfoModel {
        ModuleInfoModel {
            reflector: self.reflector@,
            module: self.module@,
            last_heard: self.last_heard,
            last_qso_call: self.last_qso_call@,
            last_qso_time: self.last_qso_time,
            active_qso: self.active_qso,
            messages: messages_view(self.messages@),
        }
    }
}

/// The (reflector, module) key that a stream subscriber listens to.
pub struct ClientSubscription {
    pub reflector: String,
    pub module: String,
}

/// One WebSocket subscriber: an info subscriber, or a stream subscriber with its key.
pub struct M17ClientSession {
    pub id: u16,
    pub subscription: ClientSubscription,
    pub info_connection: bool,
}

/// The mathematical value of a [`M17ClientSession`].
pub struct SubscriberModel {
    pub id: u16,
    pub info: bool,
    pub reflector: Seq<char>,
    pub module: Seq<char>,
}

impl View for M17ClientSession {
    type V = SubscriberModel;

    open spec fn view(&self) -> SubscriberModel {
        SubscriberModel {
            id: self.id,
            info: self.info_connection,
            reflector: self.subscription.reflector@,
            module: self.subscription.module@,
        }
    }
}

/// The role a new WebSocket subscriber takes.
#[derive(PartialEq, Eq, Structural, Debug, Clone, Copy)]
pub enum Role {
    /// Receives status snapshots.
    Info,
    /// Receives the events of one (reflector, module).
    Stream,
}

/// Why a WebSocket subscriber was not registered.
#[derive(PartialEq, Eq, Structural, Debug, Clone, Copy)]
pub enum ConnectError {
    /// The path names no reflector and module.
    BadPath,
    /// A subscriber with this id is registered already.
    DuplicateId,
}

/// Why a subscription change was refused.
#[derive(PartialEq, Eq, Structural, Debug, Clone, Copy)]
pub enum SubscriptionError {
    /// No subscriber has this id.
    UnknownSession,
    /// Info subscribers have no stream subscription.
    InfoConnection,
}

/// The registry of WebSocket subscribers.
pub struct M17ClientServer {
    sessions: Vec<M17ClientSession>,
}

pub open spec fn subscribers_view(v: Seq<M17ClientSession>) -> Seq<SubscriberModel> {
    v.map_values(|s: M17ClientSession| s@)
}

impl View for M17ClientServer {
    type V = Seq<SubscriberModel>;

    closed spec fn view(&self) -> Seq<SubscriberModel> {
        subscribers_view(self.sessions@)
    }
}

/// No two subscribers share an id.
pub open spec fn ids_unique(subs: Seq<SubscriberModel>) -> bool {
    forall|i: int, j: int| 0 <= i < j < subs.len() ==> subs[i].id != subs[j].id
}

/// A subscriber with id `id` is registered.
pub open spec fn has_id(subs: Seq<SubscriberModel>, id: u16) -> bool {
    exists|i: int| 0 <= i < subs.len() && subs[i].id == id
}

/// The path `/`, which asks for status snapshots.
pub open spec fn is_info_path(path: Seq<char>) -> bool {
    path == seq!['/']
}

/// The (reflector, module) that a stream path names: its first two nonempty segments, the
/// reflector in upper case.
pub open spec fn path_key(path: Seq<char>) -> Option<(Seq<char>, Seq<char>)> {
    let parts = nonempty_parts(split_on(path, '/'));
    if parts.len() >= 2 {
        Some((uppercase_of(parts[0]), parts[1]))
    } else {
        None
    }
}

/// The ids of the stream subscribers with key (`reflector`, `module`), in registry order.
pub open spec fn routed(subs: Seq<SubscriberModel>, reflector: Seq<char>, module: Seq<char>) -> Seq<u16>
    decreases subs.len(),
{
    if subs.len() == 0 {
        Seq::empty()
    } else {
        let s = subs.last();
        let rest = routed(subs.drop_last(), reflector, module);
        if !s.info && s.reflector == reflector && s.module == module {
            rest.push(s.id)
        } else {
            rest
        }
    }
}

/// The ids of the info subscribers, in registry order.
pub open spec fn info_targets(subs: Seq<SubscriberModel>) -> Seq<u16>
    decreases subs.len(),
{
    if subs.len() == 0 {
        Seq::empty()
    } else {
        let rest = info_targets(subs.drop_last());
        if subs.last().info {
            rest.push(subs.last().id)
        } else {
            rest
        }
    }
}

/// The first two nonempty parts of `parts`, if there are two.
fn first_two_nonempty(parts: &Vec<Vec<char>>) -> (r: Option<(usize, usize)>)
    ensures
        nonempty_parts(parts_view(parts@)).len() >= 2 <==> r.is_some(),
        r matches Some((a, b)) ==> a < parts@.len() && b < parts@.len() && parts@[a as int]@
            == nonempty_parts(parts_view(parts@))[0] && parts@[b as int]@ == nonempty_parts(
            parts_view(parts@),
        )[1],
{
    let mut first: Option<usize> = None;
    let mut i: usize = 0;
    while i < parts.len()
        invariant
            i <= parts@.len(),
            nonempty_parts(parts_view(parts@).take(i as int)).len() == (if first.is_some() {
                1int
            } else {
                0int
            }),
            first matches Some(a) ==> a < i && parts@[a as int]@ == nonempty_parts(
                parts_view(parts@).take(i as int),
            )[0],
        decreases parts@.len() - i,
    {
        proof {
            lemma_nonempty_parts_step(parts_view(parts@), i as int);
        }
        if parts[i].len() > 0 {
            match first {
                Some(a) => {
                    proof {
                        lemma_nonempty_parts_prefix(parts_view(parts@), i as int + 1);
                    }
                    return Some((a, i));
                },
                None => {
                    first = Some(i);
                },
            }
        }
        i = i + 1;
    }
    assert(parts_view(parts@).take(parts@.len() as int) =~= parts_view(parts@));
    None
}

proof fn lemma_nonempty_parts_step(p: Seq<Seq<char>>, i: int)
    requires
        0 <= i < p.len(),
    ensures
        nonempty_parts(p.take(i + 1)) == (if p[i].len() > 0 {
            nonempty_parts(p.take(i)).push(p[i])
        } else {
            nonempty_parts(p.take(i))
        }),
{
    assert(p.take(i + 1).drop_last() =~= p.take(i));
}

proof fn lemma_nonempty_parts_prefix(p: Seq<Seq<char>>, k: int)
    requires
        0 <= k <= p.len(),
    ensures
        nonempty_parts(p.take(k)).len() <= nonempty_parts(p).len(),
        forall|j: int|
            0 <= j < nonempty_parts(p.take(k)).len() ==> nonempty_parts(p.take(k))[j]
                == nonempty_parts(p)[j],
    decreases p.len() - k,
{
    if k < p.len() {
        lemma_nonempty_parts_prefix(p, k + 1);
        lemma_nonempty_parts_step(p, k);
    } else {
        assert(p.take(k) =~= p);
    }
}

/// The key that a stream path names.
fn parse_stream_path(path: &str) -> (r: Option<ClientSubscription>)
    ensures
        match path_key(path@) {
            Some((reflector, module)) => r matches Some(s) && s.reflector@ == reflector
                && s.module@ == module,
            None => r is None,
        },
{
    let c = chars_of(path);
    let parts = split_chars(&c, '/');
    match first_two_nonempty(&parts) {
        Some((a, b)) => {
            let designator = string_of(&parts[a]);
            let reflector = to_uppercase(designator.as_str());
            let module = string_of(&parts[b]);
            Some(ClientSubscription { reflector, module })
        },
        None => None,
    }
}

fn is_root_path(path: &str) -> (r: bool)
    ensures
        r == is_info_path(path@),
{
    let c = chars_of(path);
    let r = c.len() == 1 && c[0] == '/';
    assert(r ==> c@ =~= seq!['/']);
    r
}

impl M17ClientServer {
    /// No two subscribers share an id.
    pub open spec fn wf(&self) -> bool {
        ids_unique(self@)
    }

    /// A registry with no subscribers.
    pub fn new() -> (r: M17ClientServer)
        ensures
            r.wf(),
            r@ == Seq::<SubscriberModel>::empty(),
    {
        let r = M17ClientServer { sessions: Vec::new() };
        assert(r@ =~= Seq::<SubscriberModel>::empty());
        r
    }

    /// Number of registered subscribers.
    pub fn len(&self) -> (r: usize)
        ensures
            r == self@.len(),
    {
        self.sessions.len()
    }

    fn position(&self, id: u16) -> (r: Option<usize>)
        requires
            self.wf(),
        ensures
            r is None <==> !has_id(self@, id),
            r matches Some(i) ==> i < self@.len() && self@[i as int].id == id,
    {
        let mut i: usize = 0;
        while i < self.sessions.len()
            invariant
                i <= self@.len() == self.sessions@.len(),
                forall|k: int| 0 <= k < i ==> self@[k].id != id,
            decreases self@.len() - i,
        {
            if self.sessions[i].id == id {
                assert(self@[i as int].id == id);
                return Some(i);
            }
            i = i + 1;
        }
        None
    }

    /// Registers the subscriber `id` that connected on `path`: `/` makes an info subscriber;
    /// any other path names the reflector and module of a stream subscriber.
    pub fn on_connect(&mut self, id: u16, path: &str) -> (r: Result<Role, ConnectError>)
        requires
            old(self).wf(),
        ensures
            final(self).wf(),
            has_id(old(self)@, id) ==> r == Err::<Role, ConnectError>(ConnectError::DuplicateId)
                && final(self)@ == old(self)@,
            !has_id(old(self)@, id) && is_info_path(path@) ==> r == Ok::<Role, ConnectError>(
                Role::Info,
            ) && final(self)@ == old(self)@.push(
                SubscriberModel { id, info: true, reflector: Seq::empty(), module: Seq::empty() },
            ),
            !has_id(old(self)@, id) && !is_info_path(path@) ==> match path_key(path@) {
                Some((reflector, module)) => r == Ok::<Role, ConnectError>(Role::Stream)
                    && final(self)@ == old(self)@.push(
                    SubscriberModel { id, info: false, reflector, module },
                ),
                None => r == Err::<Role, ConnectError>(ConnectError::BadPath) && final(self)@
                    == old(self)@,
            },
    {
        if self.position(id).is_some() {
            return Err(ConnectError::DuplicateId);
        }
        let ghost before = self@;
        if is_root_path(path) {
            let s = M17ClientSession {
                id,
                subscription: ClientSubscription { reflector: String::new(), module: String::new() },
                info_connection: true,
            };
            self.sessions.push(s);
            assert(self@ =~= before.push(s@));
            return Ok(Role::Info);
        }
        match parse_stream_path(path) {
            Some(subscription) => {
                let s = M17ClientSession { id, subscription, info_connection: false };
                self.sessions.push(s);
                assert(self@ =~= before.push(s@));
                Ok(Role::Stream)
            },
            None => Err(ConnectError::BadPath),
        }
    }

    /// Removes subscriber `id`; false if it was not registered.
    pub fn on_disconnect(&mut self, id: u16) -> (r: bool)
        requires
            old(self).wf(),
        ensures
            final(self).wf(),
            r == has_id(old(self)@, id),
            r ==> exists|i: int|
                0 <= i < old(self)@.len() && old(self)@[i].id == id && final(self)@ == old(
                    self,
                )@.remove(i),
            !r ==> final(self)@ == old(self)@,
    {
        match self.position(id) {
            Some(i) => {
                let ghost before = self@;
                self.sessions.remove(i);
                assert(self@ =~= before.remove(i as int));
                true
            },
            None => false,
        }
    }

    /// Moves stream subscriber `id` to the key of `subscription`, the reflector in upper case.
    pub fn on_text(&mut self, id: u16, subscription: ClientSubscription) -> (r: Result<
        (),
        SubscriptionError,
    >)
        requires
            old(self).wf(),
        ensures
            final(self).wf(),
            !has_id(old(self)@, id) ==> r == Err::<(), SubscriptionError>(
                SubscriptionError::UnknownSession,
            ) && final(self)@ == old(self)@,
            forall|i: int|
                0 <= i < old(self)@.len() && old(self)@[i].id == id ==> if old(self)@[i].info {
                    r == Err::<(), SubscriptionError>(SubscriptionError::InfoConnection)
                        && final(self)@ == old(self)@
                } else {
                    r == Ok::<(), SubscriptionError>(()) && final(self)@ == old(self)@.update(
                        i,
                        SubscriberModel {
                            reflector: uppercase_of(subscription.reflector@),
                            module: subscription.module@,
                            ..old(self)@[i]
                        },
                    )
                },
    {
        match self.position(id) {
            None => Err(SubscriptionError::UnknownSession),
            Some(i) => {
                if self.sessions[i].info_connection {
                    Err(SubscriptionError::InfoConnection)
                } else {
                    let ghost before = self@;
                    let reflector = to_uppercase(subscription.reflector.as_str());
                    let s = M17ClientSession {
                        id,
                        subscription: ClientSubscription { reflector, module: subscription.module },
                        info_connection: false,
                    };
                    self.sessions.set(i, s);
                    assert(self@ =~= before.update(i as int, s@));
                    Ok(())
                }
            },
        }
    }

    /// The stream subscribers that an event of (`reflector`, `module`) goes to.
    pub fn route(&self, reflector: &String, module: &String) -> (r: Vec<u16>)
        ensures
            r@ == routed(self@, reflector@, module@),
    {
        let mut out: Vec<u16> = Vec::new();
        let mut i: usize = 0;
        while i < self.sessions.len()
            invariant
                i <= self@.len() == self.sessions@.len(),
                out@ == routed(self@.take(i as int), reflector@, module@),
            decreases self@.len() - i,
        {
            assert(self@.take(i as int + 1).drop_last() =~= self@.take(i as int));
            let s = &self.sessions[i];
            if !s.info_connection && s.subscription.reflector == *reflector
                && s.subscription.module == *module {
                out.push(s.id);
            }
            i = i + 1;
        }
        assert(self@.take(self@.len() as int) =~= self@);
        out
    }

    /// The info subscribers, which status snapshots go to.
    pub fn info_ids(&self) -> (r: Vec<u16>)
        ensures
            r@ == info_targets(self@),
    {
        let mut out: Vec<u16> = Vec::new();
        let mut i: usize = 0;
        while i < self.sessions.len()
            invariant
                i <= self@.len() == self.sessions@.len(),
                out@ == info_targets(self@.take(i as int)),
            decreases self@.len() - i,
        {
            assert(self@.take(i as int + 1).drop_last() =~= self@.take(i as int));
            if self.sessions[i].info_connection {
                out.push(self.sessions[i].id);
            }
            i = i + 1;
        }
        assert(self@.take(self@.len() as int) =~= self@);
        out
    }
}

/// An event of (`reflector`, `module`) reaches every stream subscriber with that key, and no
/// other subscriber.
pub proof fn lemma_routing_isolation(
    subs: Seq<SubscriberModel>,
    reflector: Seq<char>,
    module: Seq<char>,
    id: u16,
)
    ensures
        routed(subs, reflector, module).contains(id) <==> exists|i: int|
            0 <= i < subs.len() && subs[i].id == id && !subs[i].info && subs[i].reflector
                == reflector && subs[i].module == module,
    decreases subs.len(),
{
    if subs.len() > 0 {
        let t = subs.drop_last();
        lemma_routing_isolation(t, reflector, module, id);
        let rest = routed(t, reflector, module);
        let s = subs.last();
        if routed(subs, reflector, module).contains(id) {
            if rest.contains(id) {
                let i = choose|i: int|
                    0 <= i < t.len() && t[i].id == id && !t[i].info && t[i].reflector == reflector
                        && t[i].module == module;
                assert(subs[i] == t[i]);
            } else {
                let k = choose|k: int| 0 <= k < routed(subs, reflector, module).len()
                    && routed(subs, reflector, module)[k] == id;
                assert(!s.info && s.reflector == reflector && s.module == module);
                assert(k == rest.len());
                assert(subs[subs.len() - 1] == s);
            }
        }
        if exists|i: int|
            0 <= i < subs.len() && subs[i].id == id && !subs[i].info && subs[i].reflector
                == reflector && subs[i].module == module {
            let i = choose|i: int|
                0 <= i < subs.len() && subs[i].id == id && !subs[i].info && subs[i].reflector
                    == reflector && subs[i].module == module;
            if i < t.len() {
                assert(t[i] == subs[i]);
                let k = choose|k: int| 0 <= k < rest.len() && rest[k] == id;
                if !s.info && s.reflector == reflector && s.module == module {
                    assert(rest.push(s.id)[k] == id);
                }
            } else {
                assert(rest.push(s.id)[rest.len() as int] == id);
            }
        }
    }
}

/// Status snapshots reach every info subscriber, and no stream subscriber.
pub proof fn lemma_info_targets(subs: Seq<SubscriberModel>, id: u16)
    ensures
        info_targets(subs).contains(id) <==> exists|i: int|
            0 <= i < subs.len() && subs[i].id == id && subs[i].info,
    decreases subs.len(),
{
    if subs.len() > 0 {
        let t = subs.drop_last();
        lemma_info_targets(t, id);
        let rest = info_targets(t);
        let s = subs.last();
        if info_targets(subs).contains(id) {
            if rest.contains(id) {
                let i = choose|i: int| 0 <= i < t.len() && t[i].id == id && t[i].info;
                assert(subs[i] == t[i]);
            } else {
                let k = choose|k: int| 0 <= k < info_targets(subs).len() && info_targets(subs)[k]
                    == id;
                assert(s.info);
                assert(k == rest.len());
                assert(subs[subs.len() - 1] == s);
            }
        }
        if exists|i: int| 0 <= i < subs.len() && subs[i].id == id && subs[i].info {
            let i = choose|i: int| 0 <= i < subs.len() && subs[i].id == id && subs[i].info;
            if i < t.len() {
                assert(t[i] == subs[i]);
                let k = choose|k: int| 0 <= k < rest.len() && rest[k] == id;
                if s.info {
                    assert(rest.push(s.id)[k] == id);
                }
            } else {
                assert(rest.push(s.id)[rest.len() as int] == id);
            }
        }
    }
}

} // verus!
