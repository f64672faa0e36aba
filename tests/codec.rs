use m17web_proxy::callsign::{decode_callsign, encode_callsign};
use m17web_proxy::payloads::{create_conn_payload, create_pong_payload};

fn be6(v: u64) -> Vec<u8> {
    (0..6).map(|i| ((v >> (8 * (5 - i))) & 0xff) as u8).collect()
}

#[test]
fn round_trip_of_sample_callsigns() {
    for s in ["N0CALL", "M17-XOR A", "A", "SWL12345", "AB/CD.EF", "9", "M17-M17 C"] {
        let enc = encode_callsign(s.to_string());
        assert_eq!(enc.len(), 6);
        assert_eq!(decode_callsign(&enc), s);
    }
}

#[test]
fn broadcast_callsign_encodes_to_all_ones() {
    assert_eq!(encode_callsign("ALL".to_string()), vec![0xFF; 6]);
    assert_eq!(encode_callsign(" ALL      ".to_string()), vec![0xFF; 6]);
    assert_eq!(decode_callsign(&[0xFF; 6]), "ALL");
}

#[test]
fn zero_field_decodes_empty() {
    assert_eq!(decode_callsign(&[0; 6]), "");
}

#[test]
fn largest_value_decodes_to_nine_dots() {
    let limit: u64 = 40u64.pow(9);
    assert_eq!(limit, 262_144_000_000_000);
    assert_eq!(decode_callsign(&be6(limit - 1)), ".........");
}

#[test]
fn values_from_limit_decode_empty() {
    let limit: u64 = 40u64.pow(9);
    assert_eq!(decode_callsign(&be6(limit)), "");
    assert_eq!(decode_callsign(&be6(limit + 12345)), "");
    assert_eq!(decode_callsign(&[0xFF, 0xFF, 0xFF, 0xFF, 0xFF, 0xFE]), "");
}

#[test]
fn decode_reads_only_the_first_six_bytes() {
    let mut field = encode_callsign("N0CALL".to_string());
    field.extend_from_slice(&[1, 2, 3]);
    assert_eq!(decode_callsign(&field), "N0CALL");
}

#[test]
fn known_encoding_of_single_letter() {
    // 'A' is alphabet position 1.
    assert_eq!(encode_callsign("A".to_string()), vec![0, 0, 0, 0, 0, 1]);
    // "AB" = 1 + 40 * 2 = 81.
    assert_eq!(encode_callsign("AB".to_string()), vec![0, 0, 0, 0, 0, 81]);
    assert_eq!(decode_callsign(&[0, 0, 0, 0, 0, 81]), "AB");
}

#[test]
fn encode_trims_surrounding_white_space() {
    assert_eq!(
        encode_callsign("  N0CALL \t".to_string()),
        encode_callsign("N0CALL".to_string())
    );
}

#[test]
fn encode_keeps_nine_characters() {
    assert_eq!(
        encode_callsign("ABCDEFGHIJKL".to_string()),
        encode_callsign("ABCDEFGHI".to_string())
    );
    assert_eq!(decode_callsign(&encode_callsign("ABCDEFGHIJKL".to_string())), "ABCDEFGHI");
}

#[test]
fn unknown_characters_count_as_space() {
    // Lower case is not in the alphabet: position 0, like a space.
    assert_eq!(encode_callsign("AbC".to_string()), encode_callsign("A C".to_string()));
    // Trailing spaces are not emitted by the decoder.
    assert_eq!(decode_callsign(&encode_callsign("AB c".to_string())), "AB");
}

#[test]
fn lstn_payload_layout() {
    let p = create_conn_payload("N0CALL".to_string(), "A".to_string());
    assert_eq!(p.len(), 11);
    assert_eq!(&p[0..4], b"LSTN");
    assert_eq!(&p[4..10], encode_callsign("N0CALL".to_string()).as_slice());
    assert_eq!(p[10], 0x41);
}

#[test]
fn pong_payload_layout() {
    let p = create_pong_payload("N0CALL".to_string());
    assert_eq!(p.len(), 10);
    assert_eq!(&p[0..4], b"PONG");
    assert_eq!(&p[4..10], encode_callsign("N0CALL".to_string()).as_slice());
}
