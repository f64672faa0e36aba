use m17web_proxy::hub::{
    ClientSubscription, ConnectError, M17ClientServer, Role, SubscriptionError,
};
use m17web_proxy::session::ReflectorConnection;
use m17web_proxy::supervisor::{get_module_infos, refresh_module_info, ActiveModules};

fn key(r: &str, m: &str) -> (String, String) {
    (r.to_string(), m.to_string())
}

#[test]
fn routing_isolation() {
    let mut hub = M17ClientServer::new();
    hub.on_connect(1, "/M17-XOR/A").unwrap();
    hub.on_connect(2, "/M17-XOR/B").unwrap();
    hub.on_connect(3, "/").unwrap();
    let (r, m) = key("M17-XOR", "A");
    assert_eq!(hub.route(&r, &m), vec![1]);
    let (r, m) = key("M17-XOR", "B");
    assert_eq!(hub.route(&r, &m), vec![2]);
    let (r, m) = key("M17-DEV", "A");
    assert!(hub.route(&r, &m).is_empty());
    assert_eq!(hub.info_ids(), vec![3]);
}

#[test]
fn path_designator_is_upper_cased() {
    let mut hub = M17ClientServer::new();
    assert_eq!(hub.on_connect(1, "/m17-xor/A"), Ok(Role::Stream));
    let (r, m) = key("M17-XOR", "A");
    assert_eq!(hub.route(&r, &m), vec![1]);
}

#[test]
fn path_segments_skip_empty_ones() {
    let mut hub = M17ClientServer::new();
    assert_eq!(hub.on_connect(1, "//M17-XOR//C/extra"), Ok(Role::Stream));
    let (r, m) = key("M17-XOR", "C");
    assert_eq!(hub.route(&r, &m), vec![1]);
}

#[test]
fn bad_paths_are_refused() {
    let mut hub = M17ClientServer::new();
    assert_eq!(hub.on_connect(1, "/M17-XOR"), Err(ConnectError::BadPath));
    assert_eq!(hub.on_connect(2, "/M17-XOR/"), Err(ConnectError::BadPath));
    assert_eq!(hub.on_connect(3, ""), Err(ConnectError::BadPath));
    assert_eq!(hub.len(), 0);
}

#[test]
fn duplicate_id_is_refused() {
    let mut hub = M17ClientServer::new();
    hub.on_connect(7, "/").unwrap();
    assert_eq!(hub.on_connect(7, "/M17-XOR/A"), Err(ConnectError::DuplicateId));
    assert_eq!(hub.len(), 1);
}

#[test]
fn disconnect_removes_subscriber() {
    let mut hub = M17ClientServer::new();
    hub.on_connect(1, "/M17-XOR/A").unwrap();
    hub.on_connect(2, "/M17-XOR/A").unwrap();
    assert!(hub.on_disconnect(1));
    assert!(!hub.on_disconnect(1));
    let (r, m) = key("M17-XOR", "A");
    assert_eq!(hub.route(&r, &m), vec![2]);
}

#[test]
fn subscription_change() {
    let mut hub = M17ClientServer::new();
    hub.on_connect(1, "/M17-XOR/A").unwrap();
    hub.on_connect(2, "/").unwrap();
    let change = ClientSubscription { reflector: "m17-dev".to_string(), module: "C".to_string() };
    assert_eq!(hub.on_text(1, change), Ok(()));
    let (r, m) = key("M17-DEV", "C");
    assert_eq!(hub.route(&r, &m), vec![1]);
    let (r, m) = key("M17-XOR", "A");
    assert!(hub.route(&r, &m).is_empty());
    let info = ClientSubscription { reflector: "M17-XOR".to_string(), module: "A".to_string() };
    assert_eq!(hub.on_text(2, info), Err(SubscriptionError::InfoConnection));
    assert_eq!(hub.info_ids(), vec![2]);
    let none = ClientSubscription { reflector: "M17-XOR".to_string(), module: "A".to_string() };
    assert_eq!(hub.on_text(5, none), Err(SubscriptionError::UnknownSession));
}

#[test]
fn info_snapshot_has_one_record_per_session() {
    let sessions = vec![
        ReflectorConnection::new("M17-XOR".to_string(), "A".to_string(), "1.2.3.4:17000".to_string()),
        ReflectorConnection::new("M17-XOR".to_string(), "B".to_string(), "1.2.3.4:17000".to_string()),
        ReflectorConnection::new("M17-DEV".to_string(), "C".to_string(), "5.6.7.8:17000".to_string()),
    ];
    let infos = get_module_infos(&sessions);
    assert_eq!(infos.len(), 3);
    assert_eq!(infos[2].reflector, "M17-DEV");
    assert_eq!(infos[2].module, "C");
    assert_eq!(infos[0].last_heard, 0);
    assert!(!infos[0].active_qso);
    assert_eq!(infos[0].last_qso_call, "");
    assert_eq!(infos[0].last_qso_time, 0);
    let mut active = ActiveModules { modules: vec![] };
    refresh_module_info(&mut active, &sessions);
    assert_eq!(active.modules.len(), 3);
    assert_eq!(active.modules[1].module, "B");
}
