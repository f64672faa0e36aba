use m17web_proxy::callsign::encode_callsign;
use m17web_proxy::frame::{parse_frame, Frame};

fn voice_datagram(frame_byte: u8, c2: &[u8; 16]) -> Vec<u8> {
    let mut buf = vec![0u8; 54];
    buf[0..4].copy_from_slice(b"M17 ");
    buf[4] = 0x12;
    buf[5] = 0x34;
    buf[6..12].copy_from_slice(&encode_callsign("M17-XOR A".to_string()));
    buf[12..18].copy_from_slice(&encode_callsign("N0CALL".to_string()));
    buf[34] = frame_byte;
    buf[36..52].copy_from_slice(c2);
    buf
}

fn packet_datagram(text: &[u8], zeros: usize) -> Vec<u8> {
    let mut buf = vec![0u8; 35];
    buf[0..4].copy_from_slice(b"M17P");
    buf[4..10].copy_from_slice(&encode_callsign("ALL".to_string()));
    buf[10..16].copy_from_slice(&encode_callsign("N0CALL".to_string()));
    buf.extend_from_slice(text);
    buf.extend(std::iter::repeat(0u8).take(zeros));
    buf
}

#[test]
fn control_opcodes() {
    assert!(matches!(parse_frame(b"ACKN"), Frame::LinkUp));
    assert!(matches!(parse_frame(b"NACK"), Frame::LinkRefused));
    assert!(matches!(parse_frame(b"DISC"), Frame::LinkDown));
    assert!(matches!(parse_frame(b"PINGabcdef"), Frame::Keepalive));
    assert!(matches!(parse_frame(b"XYZW1234"), Frame::Unknown));
    assert!(matches!(parse_frame(b"PIN"), Frame::Unknown));
    assert!(matches!(parse_frame(b""), Frame::Unknown));
}

#[test]
fn voice_frame_fields() {
    let c2: [u8; 16] = core::array::from_fn(|i| i as u8 + 1);
    match parse_frame(&voice_datagram(0x00, &c2)) {
        Frame::Voice(v) => {
            assert_eq!(v.src_call, "N0CALL");
            assert_eq!(v.dest_call, "M17-XOR A");
            assert_eq!(v.c2, c2.to_vec());
            assert!(!v.is_last);
        }
        _ => panic!("expected a voice frame"),
    }
}

#[test]
fn last_frame_boundary() {
    let c2 = [7u8; 16];
    for (byte, last) in [(0x7F, false), (0x80, true), (0xFF, true), (0x00, false)] {
        match parse_frame(&voice_datagram(byte, &c2)) {
            Frame::Voice(v) => assert_eq!(v.is_last, last, "byte {byte:#x}"),
            _ => panic!("expected a voice frame"),
        }
    }
}

#[test]
fn short_voice_datagram_is_discarded() {
    let buf = voice_datagram(0, &[1; 16]);
    assert!(matches!(parse_frame(&buf[..51]), Frame::Unknown));
    assert!(matches!(parse_frame(&buf[..52]), Frame::Voice(_)));
}

#[test]
fn packet_payload_is_trimmed() {
    match parse_frame(&packet_datagram(b"Hello", 20)) {
        Frame::Text(t) => {
            assert_eq!(t.payload, b"Hello".to_vec());
            assert_eq!(t.src_call, "N0CALL");
            assert_eq!(t.dest_call, "ALL");
        }
        _ => panic!("expected a text packet"),
    }
}

#[test]
fn trailing_zero_count_does_not_matter() {
    let a = parse_frame(&packet_datagram(b"Hi\x00there", 3));
    let b = parse_frame(&packet_datagram(b"Hi\x00there", 300));
    match (a, b) {
        (Frame::Text(x), Frame::Text(y)) => {
            assert_eq!(x.payload, y.payload);
            assert_eq!(x.payload, b"Hi\x00there".to_vec());
        }
        _ => panic!("expected text packets"),
    }
}

#[test]
fn empty_packet_payload() {
    match parse_frame(&packet_datagram(b"", 10)) {
        Frame::Text(t) => assert!(t.payload.is_empty()),
        _ => panic!("expected a text packet"),
    }
    assert!(matches!(parse_frame(&packet_datagram(b"", 0)[..34]), Frame::Unknown));
}
