use eventwork::NetworkPacket;
use eventwork::codec::encode_packet;
use eventwork::stream::decode_stream;
use eventwork::stream::header_action;
use eventwork::stream::HeaderAction;
use eventwork::stream::RecvEnd;

const MAX: usize = 10 * 1024 * 1024;

fn pkt(kind: &str, data: &str) -> NetworkPacket {
    NetworkPacket {
        kind: kind.as_bytes().to_vec(),
        data: data.as_bytes().to_vec(),
    }
}

#[test]
fn empty_stream_is_a_clean_disconnect() {
    let (packets, end) = decode_stream(&[], MAX);
    assert!(packets.is_empty());
    assert_eq!(end, RecvEnd::CleanDisconnect);
}

#[test]
fn frames_sent_in_order_arrive_in_order() {
    let mut bytes = Vec::new();
    bytes.extend_from_slice(&encode_packet(&pkt("chat", "one")));
    bytes.extend_from_slice(&encode_packet(&pkt("chat", "two")));
    bytes.extend_from_slice(&encode_packet(&pkt("move", "three")));
    let (packets, end) = decode_stream(&bytes, MAX);
    assert_eq!(end, RecvEnd::CleanDisconnect);
    assert_eq!(packets.len(), 3);
    assert_eq!(packets[0].kind, b"chat");
    assert_eq!(packets[0].data, b"one");
    assert_eq!(packets[1].data, b"two");
    assert_eq!(packets[2].kind, b"move");
    assert_eq!(packets[2].data, b"three");
}

#[test]
fn oversized_length_prefix_stops_before_the_body() {
    // The whole announced body is present and well formed, yet nothing of
    // it may be delivered: the length prefix alone terminates the stream.
    let frame = encode_packet(&pkt("chat", "hi"));
    let small_max = frame.len() - 8 - 1;
    let (packets, end) = decode_stream(&frame, small_max);
    assert!(packets.is_empty());
    assert_eq!(end, RecvEnd::OversizedPacket);
}

#[test]
fn partial_header_is_malformed() {
    let (packets, end) = decode_stream(&[1, 2, 3], MAX);
    assert!(packets.is_empty());
    assert_eq!(end, RecvEnd::MalformedHeader);
}

#[test]
fn truncated_body_ends_the_stream() {
    let mut frame = encode_packet(&pkt("chat", "hi"));
    frame.pop();
    let (packets, end) = decode_stream(&frame, MAX);
    assert!(packets.is_empty());
    assert_eq!(end, RecvEnd::TruncatedBody);
}

#[test]
fn junk_body_is_a_decode_failure() {
    let mut bytes = Vec::new();
    bytes.extend_from_slice(&4u64.to_le_bytes());
    bytes.extend_from_slice(b"junk");
    let (packets, end) = decode_stream(&bytes, MAX);
    assert!(packets.is_empty());
    assert_eq!(end, RecvEnd::DecodeFailure);
}

#[test]
fn packets_before_a_bad_frame_still_arrive() {
    let mut bytes = Vec::new();
    bytes.extend_from_slice(&encode_packet(&pkt("chat", "ok")));
    bytes.extend_from_slice(&3u64.to_le_bytes());
    let (packets, end) = decode_stream(&bytes, MAX);
    assert_eq!(packets.len(), 1);
    assert_eq!(packets[0].data, b"ok");
    assert_eq!(end, RecvEnd::TruncatedBody);
}

#[test]
fn header_action_zero_read_is_disconnect() {
    let header = [0u8; 8];
    assert_eq!(header_action(0, &header, MAX), HeaderAction::Disconnect);
}

#[test]
fn header_action_partial_read_is_malformed() {
    let header = [0u8; 8];
    for n in [1usize, 3, 7] {
        assert_eq!(header_action(n, &header, MAX), HeaderAction::Malformed);
    }
}

#[test]
fn header_action_compares_against_the_maximum() {
    let small = 100u64.to_le_bytes();
    assert_eq!(header_action(8, &small, MAX), HeaderAction::ReadBody(100));
    let big = (MAX as u64 + 1).to_le_bytes();
    assert_eq!(header_action(8, &big, MAX), HeaderAction::Oversized);
    let exact = (MAX as u64).to_le_bytes();
    assert_eq!(header_action(8, &exact, MAX), HeaderAction::ReadBody(MAX as u64));
}
