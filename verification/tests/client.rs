use eventwork::NetworkPacket;
use eventwork::NetworkError;
use eventwork::ClientNetworkEvent;
use eventwork::client::NetworkClient;
use eventwork::ConnectionId;
use eventwork::codec::encode_packet;
use eventwork::stream::decode_stream;
use eventwork::stream::RecvEnd;

fn pkt(kind: &str, data: &str) -> NetworkPacket {
    NetworkPacket {
        kind: kind.as_bytes().to_vec(),
        data: data.as_bytes().to_vec(),
    }
}

#[test]
fn fresh_client_is_not_connected_and_cannot_send() {
    let client = NetworkClient::new();
    assert!(!client.is_connected());
    assert_eq!(client.send_message(&pkt("chat", "hi")), Err(NetworkError::NotConnected));
}

#[test]
fn established_connection_carries_exact_frames() {
    let mut client = NetworkClient::new();
    let rx = client.establish_connection();
    assert!(client.is_connected());
    let p = pkt("chat", "hello");
    client.send_message(&p).unwrap();
    let sent = rx.try_recv().unwrap();
    assert_eq!(sent, encode_packet(&p));
    assert!(rx.try_recv().is_err());
}

#[test]
fn send_after_send_task_exit_reports_not_connected() {
    let mut client = NetworkClient::new();
    let rx = client.establish_connection();
    drop(rx);
    assert_eq!(client.send_message(&pkt("chat", "hi")), Err(NetworkError::NotConnected));
}

#[test]
fn disconnect_twice_is_a_no_op_the_second_time() {
    let mut client = NetworkClient::new();
    let _rx = client.establish_connection();
    client.disconnect();
    assert!(!client.is_connected());
    client.disconnect();
    assert!(!client.is_connected());
    let events = client.poll_events();
    assert_eq!(events, vec![ClientNetworkEvent::Connected, ClientNetworkEvent::Disconnected]);
    assert!(client.poll_events().is_empty());
}

#[test]
fn connect_tears_down_an_existing_connection_first() {
    let mut client = NetworkClient::new();
    let _rx = client.establish_connection();
    client.connect();
    assert!(!client.is_connected());
    let events = client.poll_events();
    assert_eq!(events, vec![ClientNetworkEvent::Connected, ClientNetworkEvent::Disconnected]);
}

#[test]
fn duplicate_kind_registration_is_refused() {
    let mut client = NetworkClient::new();
    assert!(client.register_message_kind(b"chat".to_vec()));
    assert!(!client.register_message_kind(b"chat".to_vec()));
    assert!(client.register_message_kind(b"move".to_vec()));
}

#[test]
fn one_kind_drains_in_arrival_order() {
    let mut client = NetworkClient::new();
    client.register_message_kind(b"chat".to_vec());
    assert!(client.receive_packet(pkt("chat", "m1")));
    assert!(client.receive_packet(pkt("chat", "m2")));
    assert!(client.receive_packet(pkt("chat", "m3")));
    let drained = client.poll_messages(&b"chat".to_vec());
    let payloads: Vec<&[u8]> = drained.iter().map(|e| e.1.as_slice()).collect();
    assert_eq!(payloads, vec![&b"m1"[..], &b"m2"[..], &b"m3"[..]]);
    assert!(drained.iter().all(|e| e.0 == ConnectionId::server().id));
    assert!(client.poll_messages(&b"chat".to_vec()).is_empty());
}

#[test]
fn draining_one_kind_leaves_another_untouched() {
    let mut client = NetworkClient::new();
    client.register_message_kind(b"chat".to_vec());
    client.register_message_kind(b"move".to_vec());
    client.receive_packet(pkt("chat", "a"));
    client.receive_packet(pkt("move", "b"));
    assert_eq!(client.poll_messages(&b"chat".to_vec()).len(), 1);
    let moves = client.poll_messages(&b"move".to_vec());
    assert_eq!(moves.len(), 1);
    assert_eq!(moves[0].1, b"b");
}

#[test]
fn unregistered_kind_is_dropped_without_corruption() {
    let mut client = NetworkClient::new();
    client.register_message_kind(b"chat".to_vec());
    assert!(!client.receive_packet(pkt("unknown", "x")));
    assert!(client.poll_messages(&b"chat".to_vec()).is_empty());
    assert!(client.poll_messages(&b"unknown".to_vec()).is_empty());
}

#[test]
fn background_events_surface_through_polling() {
    let mut client = NetworkClient::new();
    client.push_event(ClientNetworkEvent::Error(NetworkError::Connection(
        "refused".to_string(),
    )));
    let events = client.poll_events();
    assert_eq!(events.len(), 1);
    assert!(matches!(events[0], ClientNetworkEvent::Error(NetworkError::Connection(_))));
}

#[test]
fn chat_round_trip_from_server_bytes_to_client_payload() {
    // A server-side packet whose data is the application encoding of "hi"
    // travels as bytes, is decoded by the client's receive path, dispatched
    // into the registry, and drains as exactly one payload decoding to "hi".
    let mut client = NetworkClient::new();
    client.register_message_kind(b"chat".to_vec());
    let wire = encode_packet(&pkt("chat", "\"hi\""));

    let (packets, end) = decode_stream(&wire, 10 * 1024 * 1024);
    assert_eq!(end, RecvEnd::CleanDisconnect);
    assert_eq!(packets.len(), 1);
    for p in packets {
        client.receive_packet(p);
    }
    let drained = client.poll_messages(&b"chat".to_vec());
    assert_eq!(drained.len(), 1);
    let decoded: String = serde_json::from_slice(&drained[0].1).unwrap();
    assert_eq!(decoded, "hi");
}
