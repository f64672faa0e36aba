use m17web_proxy::callsign::encode_callsign;
use m17web_proxy::hub::{M17ClientServer, Role};
use m17web_proxy::session::ReflectorConnection;
use m17web_proxy::supervisor::{get_module_infos, handle_reconnects};

const NOW: u64 = 1_700_000_000;

fn session() -> ReflectorConnection {
    ReflectorConnection::new(
        "M17-XOR".to_string(),
        "A".to_string(),
        "10.0.0.1:17000".to_string(),
    )
}

fn voice_datagram(frame_byte: u8, c2: &[u8; 16]) -> Vec<u8> {
    let mut buf = vec![0u8; 54];
    buf[0..4].copy_from_slice(b"M17 ");
    buf[6..12].copy_from_slice(&encode_callsign("M17-XOR A".to_string()));
    buf[12..18].copy_from_slice(&encode_callsign("N0CALL".to_string()));
    buf[34] = frame_byte;
    buf[36..52].copy_from_slice(c2);
    buf
}

fn ping() -> Vec<u8> {
    let mut buf = b"PING".to_vec();
    buf.extend_from_slice(&encode_callsign("M17-XOR".to_string()));
    buf
}

#[test]
fn cold_start_sends_lstn() {
    let callsign = "N0PRX".to_string();
    let mut s = session();
    assert_eq!(s.address, "10.0.0.1:17000");
    let out = s.tick(&callsign, NOW);
    let lstn = out.lstn.expect("a new session links at once");
    assert_eq!(lstn.len(), 11);
    assert_eq!(&lstn[0..4], b"LSTN");
    assert_eq!(lstn[10], 0x41);
    assert_eq!(&lstn[4..10], encode_callsign(callsign.clone()).as_slice());
    assert_eq!(s.last_heard, NOW);
    assert!(!out.status_changed);
}

#[test]
fn ping_is_answered_with_pong() {
    let callsign = "N0PRX".to_string();
    let mut s = session();
    s.tick(&callsign, NOW);
    let out = s.handle_datagram(&ping(), &callsign, NOW + 5);
    let pong = out.reply.expect("a PING is answered");
    assert_eq!(pong.len(), 10);
    assert_eq!(&pong[0..4], b"PONG");
    assert_eq!(&pong[4..10], encode_callsign(callsign.clone()).as_slice());
    assert!(out.event.is_none());
    assert_eq!(s.last_heard, NOW + 5);
}

#[test]
fn every_ping_gets_one_pong() {
    let callsign = "N0PRX".to_string();
    let mut s = session();
    for k in 0..3u64 {
        let out = s.handle_datagram(&ping(), &callsign, NOW + k);
        assert_eq!(out.reply.unwrap(), m17web_proxy::payloads::create_pong_payload(callsign.clone()));
    }
}

#[test]
fn voice_routing() {
    let callsign = "N0PRX".to_string();
    let mut hub = M17ClientServer::new();
    assert_eq!(hub.on_connect(1, "/M17-XOR/A"), Ok(Role::Stream));
    assert_eq!(hub.on_connect(2, "/M17-XOR/A"), Ok(Role::Stream));
    let mut s = session();
    let v: [u8; 16] = core::array::from_fn(|i| 0xA0 + i as u8);
    let out = s.handle_datagram(&voice_datagram(0x00, &v), &callsign, NOW);
    let event = out.event.expect("a voice frame is routed");
    let targets = hub.route(&event.reflector, &event.module);
    assert_eq!(targets, vec![1, 2]);
    assert_eq!(event.src_call, "N0CALL");
    assert_eq!(event.dest_call, "M17-XOR A");
    assert_eq!(event.c2_stream, v.to_vec());
    assert!(event.pm_stream.is_empty());
    assert!(!event.done);
    assert!(out.status_changed);
    assert!(s.active_qso);
    assert_eq!(s.active_qso_meta.callsign, "N0CALL");
    assert_eq!(s.active_qso_meta.timestamp, NOW);
}

#[test]
fn last_frame_flag() {
    let callsign = "N0PRX".to_string();
    let mut hub = M17ClientServer::new();
    hub.on_connect(1, "/M17-XOR/A").unwrap();
    hub.on_connect(2, "/M17-XOR/A").unwrap();
    let mut s = session();
    let out = s.handle_datagram(&voice_datagram(0x80, &[3; 16]), &callsign, NOW);
    let event = out.event.unwrap();
    assert_eq!(hub.route(&event.reflector, &event.module), vec![1, 2]);
    assert!(event.done);
}

#[test]
fn text_packet() {
    let callsign = "N0PRX".to_string();
    let mut hub = M17ClientServer::new();
    hub.on_connect(1, "/M17-XOR/A").unwrap();
    assert_eq!(hub.on_connect(9, "/"), Ok(Role::Info));
    let mut buf = vec![0u8; 60];
    buf[0..4].copy_from_slice(b"M17P");
    buf[4..10].copy_from_slice(&encode_callsign("ALL".to_string()));
    buf[10..16].copy_from_slice(&encode_callsign("N0CALL".to_string()));
    buf[35..40].copy_from_slice(b"Hello");
    let mut sessions = vec![session()];
    let out = sessions[0].handle_datagram(&buf, &callsign, NOW);
    let event = out.event.unwrap();
    assert_eq!(event.pm_stream, vec![0x48, 0x65, 0x6C, 0x6C, 0x6F]);
    assert!(event.c2_stream.is_empty());
    assert_eq!(event.src_call, "N0CALL");
    assert_eq!(hub.route(&event.reflector, &event.module), vec![1]);
    assert_eq!(sessions[0].messages.len(), 1);
    assert_eq!(sessions[0].messages[0].callsign, "N0CALL");
    assert_eq!(sessions[0].messages[0].message, "Hello");
    assert_eq!(sessions[0].messages[0].timestamp, NOW);
    assert!(out.status_changed);
    assert_eq!(hub.info_ids(), vec![9]);
    let snapshot = get_module_infos(&sessions);
    assert_eq!(snapshot.len(), 1);
    assert_eq!(snapshot[0].messages.len(), 1);
    assert_eq!(snapshot[0].messages[0].message, "Hello");
    assert!(snapshot[0].active_qso);
    assert_eq!(snapshot[0].last_qso_call, "N0CALL");
}

#[test]
fn forced_reconnect_on_disc() {
    let callsign = "N0PRX".to_string();
    let mut s = session();
    s.tick(&callsign, NOW);
    assert!(s.tick(&callsign, NOW + 1).lstn.is_none());
    let out = s.handle_datagram(b"DISC", &callsign, NOW + 2);
    assert!(out.reply.is_none() && out.event.is_none());
    assert_eq!(s.last_heard, 0);
    let again = s.tick(&callsign, NOW + 2);
    let lstn = again.lstn.expect("a DISC forces a new LSTN");
    assert_eq!(&lstn[0..4], b"LSTN");
    // Even at a time that a wall clock would count as early.
    let mut t = session();
    t.handle_datagram(b"DISC", &callsign, 5);
    assert!(t.tick(&callsign, 5).lstn.is_some());
}

#[test]
fn keepalive_after_silence() {
    let callsign = "N0PRX".to_string();
    let mut s = session();
    s.tick(&callsign, NOW);
    assert!(s.tick(&callsign, NOW + 59).lstn.is_none());
    assert!(s.tick(&callsign, NOW + 60).lstn.is_some());
    assert!(s.tick(&callsign, NOW + 60).lstn.is_none());
}

#[test]
fn nack_waits_before_relinking() {
    let callsign = "N0PRX".to_string();
    let mut s = session();
    s.tick(&callsign, NOW);
    s.handle_datagram(b"NACK", &callsign, NOW + 10);
    assert_eq!(s.last_heard, NOW + 10);
    assert!(s.tick(&callsign, NOW + 69).lstn.is_none());
    assert!(s.tick(&callsign, NOW + 70).lstn.is_some());
}

#[test]
fn unknown_datagram_changes_nothing() {
    let callsign = "N0PRX".to_string();
    let mut s = session();
    s.tick(&callsign, NOW);
    let out = s.handle_datagram(b"JUNKJUNK", &callsign, NOW + 30);
    assert!(out.reply.is_none() && out.event.is_none() && !out.status_changed);
    assert_eq!(s.last_heard, NOW);
    let short = s.handle_datagram(b"M17 short", &callsign, NOW + 31);
    assert!(short.event.is_none());
    assert_eq!(s.last_heard, NOW);
}

#[test]
fn idle_qso_ends_at_tick() {
    let callsign = "N0PRX".to_string();
    let mut s = session();
    s.tick(&callsign, NOW);
    s.handle_datagram(&voice_datagram(0, &[0; 16]), &callsign, NOW + 1);
    let same = s.tick(&callsign, NOW + 1);
    assert!(!same.status_changed);
    assert!(s.active_qso);
    let later = s.tick(&callsign, NOW + 2);
    assert!(later.status_changed);
    assert!(!s.active_qso);
    assert_eq!(s.active_qso_meta.callsign, "N0CALL");
}

#[test]
fn message_ring_is_bounded() {
    let callsign = "N0PRX".to_string();
    let mut s = session();
    for k in 0..70u32 {
        let mut buf = vec![0u8; 35];
        buf[0..4].copy_from_slice(b"M17P");
        buf.extend_from_slice(format!("m{k}").as_bytes());
        s.handle_datagram(&buf, &callsign, NOW + k as u64);
    }
    assert_eq!(s.messages.len(), 64);
    assert_eq!(s.messages[0].message, "m6");
    assert_eq!(s.messages[63].message, "m69");
}

#[test]
fn invalid_utf8_packet_is_routed_but_not_kept() {
    let callsign = "N0PRX".to_string();
    let mut s = session();
    let mut buf = vec![0u8; 35];
    buf[0..4].copy_from_slice(b"M17P");
    buf.extend_from_slice(&[0xFF, 0xFE, 0x41]);
    let out = s.handle_datagram(&buf, &callsign, NOW);
    assert_eq!(out.event.unwrap().pm_stream, vec![0xFF, 0xFE, 0x41]);
    assert!(s.messages.is_empty());
}

#[test]
fn tick_over_all_sessions() {
    let callsign = "N0PRX".to_string();
    let mut sessions = vec![session(), session()];
    sessions[1].tick(&callsign, NOW);
    let report = handle_reconnects(&mut sessions, &callsign, NOW + 10);
    assert_eq!(report.lstn.len(), 2);
    assert!(report.lstn[0].is_some());
    assert!(report.lstn[1].is_none());
    assert!(!report.status_changed);
    assert_eq!(sessions[0].last_heard, NOW + 10);
    assert_eq!(sessions[1].last_heard, NOW);
}
