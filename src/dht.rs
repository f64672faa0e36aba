use vstd::prelude::*;

use crate::text::{chars_of, decimal, push_char, push_decimal, same_text};

verus! {

/// Id of the configuration section of an mrefd document on the DHT.
pub const MREFD_CONFIG_VALUE_ID: u64 = 1;

/// A reflector's configuration as mrefd publishes it on the DHT.
pub struct MrefdConfig {
    pub timestamp: i64,
    pub callsign: String,
    pub ipv4addr: String,
    pub ipv6addr: String,
    pub modules: String,
    pub encryptedmods: String,
    pub url: String,
    pub email: String,
    pub sponsor: String,
    pub country: String,
    pub version: String,
    pub port: u16,
}

/// The mathematical value of a [`MrefdConfig`].
pub struct MrefdConfigModel {
    pub timestamp: i64,
    pub callsign: Seq<char>,
    pub ipv4addr: Seq<char>,
    pub ipv6addr: Seq<char>,
    pub modules: Seq<char>,
    pub encryptedmods: Seq<char>,
    pub url: Seq<char>,
    pub email: Seq<char>,
    pub sponsor: Seq<char>,
    pub country: Seq<char>,
    pub version: Seq<char>,
    pub port: u16,
}

impl View for MrefdConfig {
    type V = MrefdConfigModel;

    open spec fn view(&self) -> MrefdConfigModel {
        MrefdConfigModel {
            timestamp: self.timestamp,
            callsign: self.callsign@,
            ipv4addr: self.ipv4addr@,
            ipv6addr: self.ipv6addr@,
            modules: self.modules@,
            encryptedmods: self.encryptedmods@,
            url: self.url@,
            email: self.email@,
            sponsor: self.sponsor@,
            country: self.country@,
            version: self.version@,
            port: self.port,
        }
    }
}

/// `mrefd-config-1`, the user type of mrefd configuration values.
pub open spec fn mrefd_config_user_type() -> Seq<char> {
    seq!['m', 'r', 'e', 'f', 'd', '-', 'c', 'o', 'n', 'f', 'i', 'g', '-', '1']
}

/// Whether a DHT value holds an mrefd configuration: the configuration id, the mrefd user type,
/// and some data.
pub fn is_config_value(value_id: u64, user_type: &str, data_len: usize) -> (r: bool)
    ensures
        r == (value_id == MREFD_CONFIG_VALUE_ID && user_type@ == mrefd_config_user_type()
            && data_len > 0),
{
    let expected = "mrefd-config-1";
    proof {
        reveal_strlit("mrefd-config-1");
        assert(expected@ =~= mrefd_config_user_type());
    }
    value_id == MREFD_CONFIG_VALUE_ID && same_text(user_type, expected) && data_len > 0
}

/// Of the best configuration found so far and a new one, the one to keep: the new one unless
/// the kept one is at least as recent.
pub fn newest_config(best: Option<MrefdConfig>, candidate: MrefdConfig) -> (r: MrefdConfig)
    ensures
        r@ == match best {
            Some(b) => if b.timestamp >= candidate.timestamp {
                b@
            } else {
                candidate@
            },
            None => candidate@,
        },
{
    match best {
        Some(b) => if b.timestamp >= candidate.timestamp {
            b
        } else {
            candidate
        },
        None => candidate,
    }
}

/// `ipv4addr:port` of a configuration; `None` when it has no IPv4 address.
pub open spec fn config_address_of(c: MrefdConfigModel) -> Option<Seq<char>> {
    if c.ipv4addr.len() == 0 {
        None
    } else {
        Some(c.ipv4addr + seq![':'] + decimal(c.port as nat))
    }
}

/// The address that a configuration found on the DHT gives.
pub fn config_address(config: &MrefdConfig) -> (r: Option<String>)
    ensures
        match r {
            Some(s) => config_address_of(config@) == Some(s@),
            None => config_address_of(config@) is None,
        },
{
    let c = chars_of(config.ipv4addr.as_str());
    if c.len() == 0 {
        return None;
    }
    let mut s = String::new();
    let mut i: usize = 0;
    while i < c.len()
        invariant
            i <= c@.len(),
            s@ == c@.take(i as int),
        decreases c@.len() - i,
    {
        push_char(&mut s, c[i]);
        i = i + 1;
        assert(s@ =~= c@.take(i as int));
    }
    assert(c@.take(c@.len() as int) =~= c@);
    push_char(&mut s, ':');
    push_decimal(&mut s, config.port as u64);
    assert(s@ =~= config.ipv4addr@ + seq![':'] + decimal(config.port as nat));
    Some(s)
}

} // verus!
