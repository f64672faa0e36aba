use vstd::prelude::*;

use crate::text::{chars_of, decimal, push_char, push_decimal, to_uppercase, uppercase_of};

verus! {

/// A reflector entry of the M17 host file.
pub struct HostEntry {
    pub designator: String,
    pub name: Option<String>,
    pub slug: Option<String>,
    pub url: Option<String>,
    pub dns: Option<String>,
    pub ipv4: Option<String>,
    pub ipv6: Option<String>,
    pub port: Option<u16>,
    pub sponsor: Option<String>,
    pub country: Option<String>,
    pub ip_source: Option<String>,
    pub dns_cache_updated_at: Option<String>,
    pub last_verified_at: Option<String>,
}

pub open spec fn opt_view(o: Option<String>) -> Option<Seq<char>> {
    match o {
        Some(s) => Some(s@),
        None => None,
    }
}

/// What address resolution reads of a host entry.
pub struct HostEntryModel {
    pub designator: Seq<char>,
    pub ipv4: Option<Seq<char>>,
    pub ipv6: Option<Seq<char>>,
    pub port: Option<u16>,
}

impl View for HostEntry {
    type V = HostEntryModel;

    open spec fn view(&self) -> HostEntryModel {
        HostEntryModel {
            designator: self.designator@,
            ipv4: opt_view(self.ipv4),
            ipv6: opt_view(self.ipv6),
            port: self.port,
        }
    }
}

/// `o` holds a nonempty string.
pub open spec fn present(o: Option<Seq<char>>) -> bool {
    o matches Some(s) && s.len() > 0
}

/// The address of a host entry: its IPv4 address, else its IPv6 address in brackets, then `:`
/// and the port; `None` without a port or an address.
pub open spec fn entry_address(e: HostEntryModel) -> Option<Seq<char>> {
    match e.port {
        None => None,
        Some(port) => {
            let ip = if present(e.ipv4) {
                e.ipv4
            } else if present(e.ipv6) {
                e.ipv6
            } else {
                None
            };
            match ip {
                None => None,
                Some(a) => Some(
                    if a.contains(':') {
                        seq!['['] + a + seq![']', ':'] + decimal(port as nat)
                    } else {
                        a + seq![':'] + decimal(port as nat)
                    },
                ),
            }
        },
    }
}

/// The entry stored last under key `k`.
pub open spec fn lookup(entries: Seq<(Seq<char>, HostEntryModel)>, k: Seq<char>) -> Option<
    HostEntryModel,
>
    decreases entries.len(),
{
    if entries.len() == 0 {
        None
    } else if entries.last().0 == k {
        Some(entries.last().1)
    } else {
        lookup(entries.drop_last(), k)
    }
}

/// Host file entries keyed by their designator in upper case.
pub struct HostFileCache {
    keys: Vec<String>,
    entries: Vec<HostEntry>,
}

impl View for HostFileCache {
    type V = Seq<(Seq<char>, HostEntryModel)>;

    closed spec fn view(&self) -> Seq<(Seq<char>, HostEntryModel)> {
        Seq::new(self.keys@.len(), |i: int| (self.keys@[i]@, self.entries@[i]@))
    }
}

fn option_has(o: &Option<String>) -> (r: bool)
    ensures
        r == present(opt_view(*o)),
{
    match o {
        Some(s) => s.as_str().unicode_len() > 0,
        None => false,
    }
}

fn contains_colon(a: &Vec<char>) -> (r: bool)
    ensures
        r == a@.contains(':'),
{
    let mut i: usize = 0;
    while i < a.len()
        invariant
            i <= a@.len(),
            forall|k: int| 0 <= k < i ==> a@[k] != ':',
        decreases a@.len() - i,
    {
        if a[i] == ':' {
            return true;
        }
        i = i + 1;
    }
    false
}

fn socket_address(addr: &String, port: u16) -> (r: String)
    ensures
        r@ == if addr@.contains(':') {
            seq!['['] + addr@ + seq![']', ':'] + decimal(port as nat)
        } else {
            addr@ + seq![':'] + decimal(port as nat)
        },
{
    let a = chars_of(addr.as_str());
    let bracket = contains_colon(&a);
    let mut r = String::new();
    if bracket {
        push_char(&mut r, '[');
    }
    let mut i: usize = 0;
    while i < a.len()
        invariant
            i <= a@.len(),
            a@ == addr@,
            r@ == (if bracket {
                seq!['[']
            } else {
                Seq::empty()
            }) + a@.take(i as int),
        decreases a@.len() - i,
    {
        push_char(&mut r, a[i]);
        i = i + 1;
        assert(r@ =~= (if bracket {
            seq!['[']
        } else {
            Seq::empty()
        }) + a@.take(i as int));
    }
    assert(a@.take(a@.len() as int) =~= a@);
    if bracket {
        push_char(&mut r, ']');
    }
    push_char(&mut r, ':');
    push_decimal(&mut r, port as u64);
    if bracket {
        assert(r@ =~= seq!['['] + addr@ + seq![']', ':'] + decimal(port as nat));
    } else {
        assert(r@ =~= addr@ + seq![':'] + decimal(port as nat));
    }
    r
}

/// The address of host entry `entry`.
pub fn entry_socket_address(entry: &HostEntry) -> (r: Option<String>)
    ensures
        opt_view(r) == entry_address(entry@),
{
    match entry.port {
        None => None,
        Some(port) => {
            if option_has(&entry.ipv4) {
                match &entry.ipv4 {
                    Some(a) => Some(socket_address(a, port)),
                    None => None,
                }
            } else if option_has(&entry.ipv6) {
                match &entry.ipv6 {
                    Some(a) => Some(socket_address(a, port)),
                    None => None,
                }
            } else {
                None
            }
        },
    }
}

impl HostFileCache {
    pub closed spec fn wf(&self) -> bool {
        self.keys@.len() == self.entries@.len()
    }

    /// An empty cache.
    pub fn new() -> (r: HostFileCache)
        ensures
            r.wf(),
            r@ == Seq::<(Seq<char>, HostEntryModel)>::empty(),
    {
        let r = HostFileCache { keys: Vec::new(), entries: Vec::new() };
        assert(r@ =~= Seq::<(Seq<char>, HostEntryModel)>::empty());
        r
    }

    /// Stores `entry` under its designator in upper case; it hides any earlier entry with that key.
    pub fn insert(&mut self, entry: HostEntry)
        requires
            old(self).wf(),
        ensures
            final(self).wf(),
            final(self)@ == old(self)@.push((uppercase_of(entry.designator@), entry@)),
    {
        let ghost before = self@;
        let ghost e = entry@;
        let key = to_uppercase(entry.designator.as_str());
        self.keys.push(key);
        self.entries.push(entry);
        assert(self@ =~= before.push((uppercase_of(e.designator), e)));
    }

    /// A cache of the reflector entries of a host file.
    pub fn from_entries(reflectors: Vec<HostEntry>) -> (r: HostFileCache)
        ensures
            r.wf(),
            r@ == reflectors@.map_values(|e: HostEntry| (uppercase_of(e.designator@), e@)),
    {
        let mut cache = HostFileCache::new();
        let rest = reflectors;
        let ghost all = rest@;
        let mut i: usize = 0;
        while i < rest.len()
            invariant
                cache.wf(),
                rest@ == all,
                i <= all.len(),
                cache@ == all.take(i as int).map_values(
                    |e: HostEntry| (uppercase_of(e.designator@), e@),
                ),
            decreases all.len() - i,
        {
            let e = copy_entry(&rest[i]);
            cache.insert(e);
            i = i + 1;
            assert(cache@ =~= all.take(i as int).map_values(
                |e: HostEntry| (uppercase_of(e.designator@), e@),
            ));
        }
        assert(all.take(all.len() as int) =~= all);
        cache
    }

    /// Number of stored entries.
    pub fn len(&self) -> (r: usize)
        requires
            self.wf(),
        ensures
            r == self@.len(),
    {
        self.keys.len()
    }

    /// The address of reflector `designator` (any case) as `ip:port`.
    pub fn resolve(&self, designator: &str) -> (r: Option<String>)
        requires
            self.wf(),
        ensures
            opt_view(r) == match lookup(self@, uppercase_of(designator@)) {
                Some(e) => entry_address(e),
                None => None,
            },
    {
        let key = to_uppercase(designator);
        let mut i = self.keys.len();
        assert(self@.take(i as int) =~= self@);
        while i > 0
            invariant
                i <= self@.len() == self.keys@.len() == self.entries@.len(),
                lookup(self@, key@) == lookup(self@.take(i as int), key@),
                key@ == uppercase_of(designator@),
            decreases i,
        {
            assert(self@.take(i as int).drop_last() =~= self@.take(i as int - 1));
            assert(self@.take(i as int).last() == self@[i - 1]);
            assert(self@[i - 1] == (self.keys@[i - 1]@, self.entries@[i - 1]@));
            if self.keys[i - 1] == key {
                assert(self.keys@[i - 1]@ == key@);
                assert(lookup(self@.take(i as int), key@) == Some(self.entries@[i - 1]@));
                return entry_socket_address(&self.entries[i - 1]);
            }
            i = i - 1;
        }
        None
    }
}

fn copy_option(o: &Option<String>) -> (r: Option<String>)
    ensures
        opt_view(r) == opt_view(*o),
{
    match o {
        Some(s) => Some(s.clone()),
        None => None,
    }
}

fn copy_entry(e: &HostEntry) -> (r: HostEntry)
    ensures
        r@ == e@,
        r.designator@ == e.designator@,
{
    HostEntry {
        designator: e.designator.clone(),
        name: copy_option(&e.name),
        slug: copy_option(&e.slug),
        url: copy_option(&e.url),
        dns: copy_option(&e.dns),
        ipv4: copy_option(&e.ipv4),
        ipv6: copy_option(&e.ipv6),
        port: e.port,
        sponsor: copy_option(&e.sponsor),
        country: copy_option(&e.country),
        ip_source: copy_option(&e.ip_source),
        dns_cache_updated_at: copy_option(&e.dns_cache_updated_at),
        last_verified_at: copy_option(&e.last_verified_at),
    }
}

/// Resolves `designator` through the host file cache, when there is one.
pub fn resolve_from_hostfile(cache: &Option<HostFileCache>, designator: &str) -> (r: Option<String>)
    requires
        cache matches Some(c) ==> c.wf(),
    ensures
        match cache {
            Some(c) => opt_view(r) == match lookup(c@, uppercase_of(designator@)) {
                Some(e) => entry_address(e),
                None => None,
            },
            None => r is None,
        },
{
    match cache {
        Some(c) => c.resolve(designator),
        None => None,
    }
}

} // verus!
