use vstd::prelude::*;

use crate::hostfile::opt_view;
use crate::text::{chars_of, decimal, push_char, push_decimal, split_chars, split_on, string_of};

verus! {

/// A reflector of the published reflector list.
pub struct Reflector {
    pub designator: Option<String>,
    pub url: Option<String>,
    pub dns: Option<String>,
    pub ipv4: Option<String>,
    pub ipv6: Option<String>,
    pub port: Option<u64>,
    pub sponsor: Option<String>,
    pub country: Option<String>,
}

/// The published list of reflectors.
pub struct ReflectorList {
    pub status: Option<String>,
    pub generated_at: Option<String>,
    pub reflectors: Vec<Reflector>,
}

/// What address resolution reads of a listed reflector.
pub struct ReflectorModel {
    pub designator: Option<Seq<char>>,
    pub ipv4: Option<Seq<char>>,
    pub port: Option<u64>,
}

impl View for Reflector {
    type V = ReflectorModel;

    open spec fn view(&self) -> ReflectorModel {
        ReflectorModel {
            designator: opt_view(self.designator),
            ipv4: opt_view(self.ipv4),
            port: self.port,
        }
    }
}

/// The part of a designator after its last `-`: the list names `M17-XOR` as `XOR`.
pub open spec fn designator_suffix(d: Seq<char>) -> Seq<char> {
    split_on(d, '-').last()
}

/// `ipv4:port` of a listed reflector that has both.
pub open spec fn listed_address(r: ReflectorModel) -> Option<Seq<char>> {
    match (r.ipv4, r.port) {
        (Some(a), Some(p)) => Some(a + seq![':'] + decimal(p as nat)),
        _ => None,
    }
}

/// The address of the last reflector of `rs` named `name` that has an address.
pub open spec fn list_address(rs: Seq<ReflectorModel>, name: Seq<char>) -> Option<Seq<char>>
    decreases rs.len(),
{
    if rs.len() == 0 {
        None
    } else if rs.last().designator == Some(name) && listed_address(rs.last()) is Some {
        listed_address(rs.last())
    } else {
        list_address(rs.drop_last(), name)
    }
}

pub open spec fn reflectors_view(rs: Seq<Reflector>) -> Seq<ReflectorModel> {
    rs.map_values(|r: Reflector| r@)
}

fn listed_socket_address(r: &Reflector) -> (out: Option<String>)
    ensures
        opt_view(out) == listed_address(r@),
{
    match (&r.ipv4, r.port) {
        (Some(a), Some(p)) => {
            let c = chars_of(a.as_str());
            let mut s = String::new();
            let mut i: usize = 0;
            while i < c.len()
                invariant
                    i <= c@.len(),
                    s@ == c@.take(i as int),
                decreases c@.len() - i,
            {
                push_char(&mut s, c[i]);
                i = i + 1;
                assert(s@ =~= c@.take(i as int));
            }
            assert(c@.take(c@.len() as int) =~= c@);
            push_char(&mut s, ':');
            push_decimal(&mut s, p);
            assert(s@ =~= a@ + seq![':'] + decimal(p as nat));
            Some(s)
        },
        _ => None,
    }
}

/// The address `ipv4:port` that the reflector list gives for `designator` (such as `M17-XOR`).
pub fn get_ref_address(list: &ReflectorList, designator: &str) -> (r: Option<String>)
    ensures
        opt_view(r) == list_address(reflectors_view(list.reflectors@), designator_suffix(designator@)),
{
    let c = chars_of(designator);
    let parts = split_chars(&c, '-');
    let name = string_of(&parts[parts.len() - 1]);
    assert(name@ == designator_suffix(designator@));
    let ghost rs = reflectors_view(list.reflectors@);
    let mut i = list.reflectors.len();
    assert(rs.take(i as int) =~= rs);
    while i > 0
        invariant
            i <= list.reflectors@.len() == rs.len(),
            rs == reflectors_view(list.reflectors@),
            name@ == designator_suffix(designator@),
            list_address(rs, name@) == list_address(rs.take(i as int), name@),
        decreases i,
    {
        assert(rs.take(i as int).drop_last() =~= rs.take(i as int - 1));
        let r = &list.reflectors[i - 1];
        let matches = match &r.designator {
            Some(d) => *d == name,
            None => false,
        };
        if matches {
            let found = listed_socket_address(r);
            if found.is_some() {
                return found;
            }
        }
        i = i - 1;
    }
    None
}

} // verus!
