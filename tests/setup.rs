use m17web_proxy::dht::{config_address, is_config_value, newest_config, MrefdConfig};
use m17web_proxy::hostfile::{resolve_from_hostfile, HostEntry, HostFileCache};
use m17web_proxy::identity::{generate_lstn_call, proxy_callsign, swl_callsign};
use m17web_proxy::reflectors::{get_ref_address, Reflector, ReflectorList};
use m17web_proxy::supervisor::{parse_subscription, ConfigError};

fn entry(designator: &str, ipv4: Option<&str>, ipv6: Option<&str>, port: Option<u16>) -> HostEntry {
    HostEntry {
        designator: designator.to_string(),
        name: None,
        slug: None,
        url: None,
        dns: None,
        ipv4: ipv4.map(str::to_string),
        ipv6: ipv6.map(str::to_string),
        port,
        sponsor: None,
        country: None,
        ip_source: None,
        dns_cache_updated_at: None,
        last_verified_at: None,
    }
}

#[test]
fn subscription_entries() {
    let keys = parse_subscription("M17-XOR_AB,M17-DEV_C").unwrap();
    let pairs: Vec<(String, String)> =
        keys.into_iter().map(|k| (k.reflector, k.module)).collect();
    assert_eq!(
        pairs,
        vec![
            ("M17-XOR".to_string(), "A".to_string()),
            ("M17-XOR".to_string(), "B".to_string()),
            ("M17-DEV".to_string(), "C".to_string()),
        ]
    );
}

#[test]
fn subscription_designator_upper_cased() {
    let keys = parse_subscription("m17-xor_A").unwrap();
    assert_eq!(keys[0].reflector, "M17-XOR");
    assert_eq!(keys[0].module, "A");
}

#[test]
fn malformed_subscriptions() {
    for bad in ["", "M17-XOR", "M17-XOR_", "_A", "M17-XOR_A,", "A_B_C", "M17-XOR_A,,M17-DEV_B"] {
        assert_eq!(parse_subscription(bad).err(), Some(ConfigError::MalformedEntry), "{bad:?}");
    }
}

#[test]
fn hostfile_prefers_ipv4() {
    let cache = HostFileCache::from_entries(vec![
        entry("m17-xor", Some("10.0.0.1"), Some("2001:db8::1"), Some(17000)),
        entry("M17-V6", Some(""), Some("2001:db8::2"), Some(17001)),
        entry("M17-NOPORT", Some("10.0.0.3"), None, None),
        entry("M17-NOIP", None, None, Some(17000)),
    ]);
    assert_eq!(cache.len(), 4);
    assert_eq!(cache.resolve("M17-XOR").as_deref(), Some("10.0.0.1:17000"));
    assert_eq!(cache.resolve("m17-v6").as_deref(), Some("[2001:db8::2]:17001"));
    assert_eq!(cache.resolve("M17-NOPORT"), None);
    assert_eq!(cache.resolve("M17-NOIP"), None);
    assert_eq!(cache.resolve("M17-ABC"), None);
}

#[test]
fn hostfile_later_entry_wins() {
    let mut cache = HostFileCache::new();
    cache.insert(entry("M17-XOR", Some("10.0.0.1"), None, Some(17000)));
    cache.insert(entry("m17-xor", Some("10.0.0.9"), None, Some(17009)));
    assert_eq!(cache.resolve("M17-XOR").as_deref(), Some("10.0.0.9:17009"));
}

#[test]
fn resolve_without_cache() {
    assert_eq!(resolve_from_hostfile(&None, "M17-XOR"), None);
    let cache = HostFileCache::from_entries(vec![entry("M17-XOR", Some("1.2.3.4"), None, Some(0))]);
    assert_eq!(resolve_from_hostfile(&Some(cache), "M17-XOR").as_deref(), Some("1.2.3.4:0"));
}

fn listed(designator: Option<&str>, ipv4: Option<&str>, port: Option<u64>) -> Reflector {
    Reflector {
        designator: designator.map(str::to_string),
        url: None,
        dns: None,
        ipv4: ipv4.map(str::to_string),
        ipv6: None,
        port,
        sponsor: None,
        country: None,
    }
}

#[test]
fn reflector_list_address() {
    let list = ReflectorList {
        status: Some("ok".to_string()),
        generated_at: None,
        reflectors: vec![
            listed(Some("XOR"), Some("10.0.0.1"), Some(17000)),
            listed(None, Some("10.0.0.2"), Some(17000)),
            listed(Some("DEV"), Some("10.0.0.3"), Some(17001)),
            listed(Some("XOR"), None, Some(17000)),
        ],
    };
    assert_eq!(get_ref_address(&list, "M17-XOR").as_deref(), Some("10.0.0.1:17000"));
    assert_eq!(get_ref_address(&list, "M17-DEV").as_deref(), Some("10.0.0.3:17001"));
    assert_eq!(get_ref_address(&list, "M17-ABC"), None);
}

fn config(ts: i64, ipv4: &str, port: u16) -> MrefdConfig {
    MrefdConfig {
        timestamp: ts,
        callsign: "M17-XOR".to_string(),
        ipv4addr: ipv4.to_string(),
        ipv6addr: String::new(),
        modules: "ABC".to_string(),
        encryptedmods: String::new(),
        url: String::new(),
        email: String::new(),
        sponsor: String::new(),
        country: String::new(),
        version: "1.0".to_string(),
        port,
    }
}

#[test]
fn dht_config_selection() {
    assert!(is_config_value(1, "mrefd-config-1", 10));
    assert!(!is_config_value(2, "mrefd-config-1", 10));
    assert!(!is_config_value(1, "mrefd-config-2", 10));
    assert!(!is_config_value(1, "mrefd-config-1", 0));
    let first = newest_config(None, config(5, "10.0.0.1", 17000));
    assert_eq!(first.timestamp, 5);
    let kept = newest_config(Some(first), config(5, "10.0.0.2", 17000));
    assert_eq!(kept.ipv4addr, "10.0.0.1");
    let newer = newest_config(Some(kept), config(6, "10.0.0.3", 17000));
    assert_eq!(newer.ipv4addr, "10.0.0.3");
    assert_eq!(config_address(&newer).as_deref(), Some("10.0.0.3:17000"));
    assert_eq!(config_address(&config(1, "", 17000)), None);
}

#[test]
fn listener_callsigns() {
    let c = generate_lstn_call();
    assert_eq!(c.len(), 9);
    assert!(c.starts_with("SWL"));
    assert!(c[3..].chars().all(|ch| ch.is_ascii_uppercase()));
    assert_eq!(swl_callsign(12345), "SWL12345");
    assert_eq!(swl_callsign(0), "SWL0");
}

#[test]
fn proxy_callsign_choice() {
    assert_eq!(proxy_callsign(&"N0PRX".to_string()), "N0PRX");
    let generated = proxy_callsign(&"NONE".to_string());
    assert_eq!(generated.len(), 8);
    assert!(generated.starts_with("SWL"));
    let n: u32 = generated[3..].parse().unwrap();
    assert!((10000..99999).contains(&n));
}
