use vstd::prelude::*;

use crate::hub::{ClientSubscription, ModuleInfo, ModuleInfoModel};
use crate::payloads::conn_payload;
use crate::session::{
    after_tick, bytes_option_view, info_of, needs_connect, qso_expired, ReflectorConnection,
};
use crate::text::{chars_of, parts_view, push_char, split_chars, split_on, string_of, to_uppercase, uppercase_of};

verus! {

/// Why the subscription setting was refused.
#[derive(PartialEq, Eq, Structural, Debug, Clone, Copy)]
pub enum ConfigError {
    /// An entry is not of the form `REFLECTOR_MODULES` with both parts nonempty.
    MalformedEntry,
}

/// An entry `REFLECTOR_MODULES`: one `_` between a nonempty reflector and nonempty modules.
pub open spec fn entry_ok(e: Seq<char>) -> bool {
    let p = split_on(e, '_');
    p.len() == 2 && p[0].len() > 0 && p[1].len() > 0
}

/// The keys of entry `e`: its reflector in upper case with each of its module letters.
pub open spec fn entry_keys(e: Seq<char>) -> Seq<(Seq<char>, Seq<char>)> {
    let p = split_on(e, '_');
    Seq::new(p[1].len(), |i: int| (uppercase_of(p[0]), seq![p[1][i]]))
}

/// The keys of the entries `es`, in order.
pub open spec fn keys_of_entries(es: Seq<Seq<char>>) -> Seq<(Seq<char>, Seq<char>)>
    decreases es.len(),
{
    if es.len() == 0 {
        Seq::empty()
    } else {
        keys_of_entries(es.drop_last()) + entry_keys(es.last())
    }
}

/// The subscription keys of a setting such as `M17-XOR_AB,M17-DEV_C`; `None` when an entry is
/// malformed.
pub open spec fn subscription_keys(config: Seq<char>) -> Option<Seq<(Seq<char>, Seq<char>)>> {
    let es = split_on(config, ',');
    if forall|i: int| 0 <= i < es.len() ==> entry_ok(#[trigger] es[i]) {
        Some(keys_of_entries(es))
    } else {
        None
    }
}

pub open spec fn keys_view(v: Seq<ClientSubscription>) -> Seq<(Seq<char>, Seq<char>)> {
    v.map_values(|k: ClientSubscription| (k.reflector@, k.module@))
}

/// Parses the subscription setting into one key per (reflector, module).
pub fn parse_subscription(config: &str) -> (r: Result<Vec<ClientSubscription>, ConfigError>)
    ensures
        match subscription_keys(config@) {
            Some(keys) => r matches Ok(v) && keys_view(v@) == keys,
            None => r == Err::<Vec<ClientSubscription>, ConfigError>(ConfigError::MalformedEntry),
        },
{
    let c = chars_of(config);
    let entries = split_chars(&c, ',');
    let ghost es = parts_view(entries@);
    let mut keys: Vec<ClientSubscription> = Vec::new();
    let mut i: usize = 0;
    while i < entries.len()
        invariant
            i <= entries@.len() == es.len(),
            es == parts_view(entries@),
            es == split_on(config@, ','),
            forall|k: int| 0 <= k < i ==> entry_ok(#[trigger] es[k]),
            keys_view(keys@) == keys_of_entries(es.take(i as int)),
        decreases entries@.len() - i,
    {
        let parts = split_chars(&entries[i], '_');
        assert(es[i as int] == entries@[i as int]@);
        if parts.len() != 2 || parts[0].len() == 0 || parts[1].len() == 0 {
            assert(!entry_ok(es[i as int]));
            return Err(ConfigError::MalformedEntry);
        }
        assert(entry_ok(es[i as int]));
        let designator = string_of(&parts[0]);
        let ghost before = keys_view(keys@);
        let ghost added = entry_keys(es[i as int]);
        let mut j: usize = 0;
        while j < parts[1].len()
            invariant
                j <= parts@[1]@.len(),
                i < es.len(),
                designator@ == parts@[0]@,
                parts_view(parts@) == split_on(es[i as int], '_'),
                parts@.len() == 2,
                keys_view(keys@) == before + added.take(j as int),
                added == entry_keys(es[i as int]),
            decreases parts@[1]@.len() - j,
        {
            let reflector = to_uppercase(designator.as_str());
            let mut module = String::new();
            push_char(&mut module, parts[1][j]);
            let ghost pushed = (reflector@, module@);
            assert(pushed == added[j as int]) by {
                assert(module@ =~= seq![parts@[1]@[j as int]]);
                assert(parts_view(parts@)[0] == parts@[0]@);
                assert(parts_view(parts@)[1] == parts@[1]@);
            }
            let ghost old_keys = keys@;
            keys.push(ClientSubscription { reflector, module });
            assert(keys_view(keys@) =~= keys_view(old_keys).push(pushed));
            assert(added.take(j as int + 1) =~= added.take(j as int).push(added[j as int]));
            j = j + 1;
            assert(keys_view(keys@) =~= before + added.take(j as int));
        }
        assert(added.take(j as int) =~= added);
        assert(es.take(i as int + 1).drop_last() =~= es.take(i as int));
        i = i + 1;
    }
    assert(es.take(es.len() as int) =~= es);
    Ok(keys)
}

/// What a keepalive tick over all sessions asks of the caller.
pub struct TickReport {
    /// For each session, in order, the `LSTN` datagram to send, if any.
    pub lstn: Vec<Option<Vec<u8>>>,
    /// Info subscribers are owed a new snapshot.
    pub status_changed: bool,
}

/// Every session keeps its message ring within bound.
pub open spec fn all_wf(sessions: Seq<ReflectorConnection>) -> bool {
    forall|i: int| 0 <= i < sessions.len() ==> (#[trigger] sessions[i]).wf()
}

/// Runs the keepalive tick at time `now` on every session, in order.
pub fn handle_reconnects(sessions: &mut Vec<ReflectorConnection>, callsign: &String, now: u64) -> (r:
    TickReport)
    requires
        all_wf(old(sessions)@),
    ensures
        final(sessions)@.len() == old(sessions)@.len(),
        all_wf(final(sessions)@),
        forall|i: int|
            0 <= i < old(sessions)@.len() ==> (#[trigger] final(sessions)@[i])@ == after_tick(
                old(sessions)@[i]@,
                now,
            ),
        r.lstn@.len() == old(sessions)@.len(),
        forall|i: int|
            0 <= i < old(sessions)@.len() ==> bytes_option_view(#[trigger] r.lstn@[i]) == if needs_connect(
                old(sessions)@[i]@,
                now,
            ) {
                Some(conn_payload(callsign@, old(sessions)@[i]@.module))
            } else {
                None
            },
        r.status_changed == exists|i: int|
            0 <= i < old(sessions)@.len() && qso_expired(#[trigger] old(sessions)@[i]@, now),
{
    let ghost before = sessions@;
    let mut lstn: Vec<Option<Vec<u8>>> = Vec::new();
    let mut changed = false;
    let mut i: usize = 0;
    while i < sessions.len()
        invariant
            i <= sessions@.len() == before.len(),
            all_wf(sessions@),
            forall|k: int| 0 <= k < i ==> (#[trigger] sessions@[k])@ == after_tick(before[k]@, now),
            forall|k: int| i <= k < before.len() ==> #[trigger] sessions@[k] == before[k],
            lstn@.len() == i,
            forall|k: int|
                0 <= k < i ==> bytes_option_view(#[trigger] lstn@[k]) == if needs_connect(
                    before[k]@,
                    now,
                ) {
                    Some(conn_payload(callsign@, before[k]@.module))
                } else {
                    None
                },
            changed == exists|k: int| 0 <= k < i && qso_expired(#[trigger] before[k]@, now),
        decreases before.len() - i,
    {
        let out = sessions[i].tick(callsign, now);
        lstn.push(out.lstn);
        changed = changed || out.status_changed;
        i = i + 1;
    }
    TickReport { lstn, status_changed: changed }
}

/// The status snapshot: one record per session, in order.
pub fn get_module_infos(sessions: &Vec<ReflectorConnection>) -> (r: Vec<ModuleInfo>)
    ensures
        r@.len() == sessions@.len(),
        forall|i: int| 0 <= i < sessions@.len() ==> (#[trigger] r@[i])@ == info_of(sessions@[i]@),
{
    let mut out: Vec<ModuleInfo> = Vec::new();
    let mut i: usize = 0;
    while i < sessions.len()
        invariant
            i <= sessions@.len(),
            out@.len() == i,
            forall|k: int| 0 <= k < i ==> (#[trigger] out@[k])@ == info_of(sessions@[k]@),
        decreases sessions@.len() - i,
    {
        out.push(sessions[i].module_info());
        i = i + 1;
    }
    out
}

/// The status snapshot that info subscribers are sent.
pub struct ActiveModules {
    pub modules: Vec<ModuleInfo>,
}

impl ActiveModules {
    pub open spec fn view_modules(&self) -> Seq<ModuleInfoModel> {
        self.modules@.map_values(|m: ModuleInfo| m@)
    }
}

/// Replaces the snapshot in `active` with the current state of `sessions`.
pub fn refresh_module_info(active: &mut ActiveModules, sessions: &Vec<ReflectorConnection>)
    ensures
        final(active).view_modules() == sessions@.map_values(|s: ReflectorConnection| info_of(s@)),
{
    active.modules = get_module_infos(sessions);
    assert(active.view_modules() =~= sessions@.map_values(|s: ReflectorConnection| info_of(s@)));
}

} // verus!
