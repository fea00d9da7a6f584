use eventwork::NetworkPacket;
use eventwork::codec::encode_packet;
use eventwork::codec::encode_envelope;
use eventwork::codec::encode_header;
use eventwork::codec::decode_header;
use eventwork::codec::decode_envelope;

fn pkt(kind: &str, data: &str) -> NetworkPacket {
    NetworkPacket {
        kind: kind.as_bytes().to_vec(),
        data: data.as_bytes().to_vec(),
    }
}

#[test]
fn frame_is_length_prefix_then_envelope() {
    let out = encode_packet(&pkt("chat", "hi"));
    let body: &[u8] = b"{\"kind\":\"chat\",\"data\":\"hi\"}";
    assert_eq!(&out[..8], &(body.len() as u64).to_le_bytes());
    assert_eq!(&out[8..], body);
}

#[test]
fn envelope_escapes_like_a_standard_json_encoder() {
    let out = encode_envelope(&pkt("k", "a\"b\\c\nd\te\rf"));
    let expected: &[u8] = b"{\"kind\":\"k\",\"data\":\"a\\\"b\\\\c\\nd\\te\\rf\"}";
    assert_eq!(out, expected);
}

#[test]
fn envelope_escapes_rare_control_bytes_as_hex() {
    let p = NetworkPacket {
        kind: b"k".to_vec(),
        data: vec![0x01, 0x1f, 0x08, 0x0c],
    };
    let out = encode_envelope(&p);
    let expected: &[u8] = b"{\"kind\":\"k\",\"data\":\"\\u0001\\u001f\\b\\f\"}";
    assert_eq!(out, expected);
}

#[test]
fn envelope_passes_non_ascii_bytes_through() {
    let out = encode_envelope(&pkt("k", "caf\u{e9}"));
    let expected: &[u8] = "{\"kind\":\"k\",\"data\":\"caf\u{e9}\"}".as_bytes();
    assert_eq!(out, expected);
}

#[test]
fn a_general_json_parser_reads_the_envelope_back() {
    let out = encode_envelope(&pkt("position", "x\"=\\1\n2"));
    let v: serde_json::Value = serde_json::from_slice(&out).unwrap();
    assert_eq!(v.get("kind").unwrap().as_str().unwrap(), "position");
    assert_eq!(v.get("data").unwrap().as_str().unwrap(), "x\"=\\1\n2");
}

#[test]
fn header_round_trips() {
    for n in [0u64, 1, 255, 256, 0xdead_beef, u64::MAX] {
        let bytes = encode_header(n);
        assert_eq!(bytes.len(), 8);
        assert_eq!(decode_header(&bytes), n);
        assert_eq!(&bytes[..], &n.to_le_bytes());
    }
}

#[test]
fn envelope_round_trips() {
    let cases = [
        ("chat", "hi"),
        ("", ""),
        ("a", "{\"msg\":\"hello\"}"),
        ("weird\"kind", "back\\slash and \"quote\" and\nnewline"),
        ("t", "caf\u{e9} \u{2603}"),
    ];
    for (kind, data) in cases {
        let encoded = encode_envelope(&pkt(kind, data));
        let decoded = decode_envelope(&encoded).unwrap();
        assert_eq!(decoded.kind, kind.as_bytes());
        assert_eq!(decoded.data, data.as_bytes());
    }
}

#[test]
fn envelope_round_trips_control_bytes() {
    let p = NetworkPacket {
        kind: b"k".to_vec(),
        data: (0u8..0x20).collect(),
    };
    let encoded = encode_envelope(&p);
    let decoded = decode_envelope(&encoded).unwrap();
    assert_eq!(decoded.kind, p.kind);
    assert_eq!(decoded.data, p.data);
}

#[test]
fn decoder_accepts_standard_short_and_hex_escapes() {
    let body: &[u8] = b"{\"kind\":\"k\",\"data\":\"\\u0002\\/\\b\\f\\n\\r\\t\\\\\\\"\"}";
    let decoded = decode_envelope(body).unwrap();
    assert_eq!(decoded.data, vec![0x02, b'/', 0x08, 0x0c, 0x0a, 0x0d, 0x09, b'\\', b'"']);
}

#[test]
fn decoder_rejects_malformed_envelopes() {
    let bad: [&[u8]; 8] = [
        b"",
        b"{\"kind\":\"a\"}",
        b"{\"kind\":\"a\",\"data\":\"b\"",
        b"{\"kind\":\"a\",\"data\":\"b\"}x",
        b"{\"data\":\"b\",\"kind\":\"a\"}",
        b"{\"kind\":\"a\",\"data\":\"\\x\"}",
        b"{\"kind\":\"a\",\"data\":\"\\uQQQQ\"}",
        b"{\"kind\":\"a\",\"data\":\"\x01\"}",
    ];
    for body in bad {
        assert!(decode_envelope(body).is_none());
    }
}

#[test]
fn decoder_rejects_escapes_beyond_ascii() {
    // A code point above 0x7f would need multi-byte UTF-8; the envelope
    // decoder leaves such escapes to the application layer and fails.
    let body: &[u8] = b"{\"kind\":\"a\",\"data\":\"\\u00ff\"}";
    assert!(decode_envelope(body).is_none());
}
