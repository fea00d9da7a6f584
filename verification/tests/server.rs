use eventwork::NetworkPacket;
use eventwork::NetworkError;
use eventwork::ServerNetworkEvent;
use eventwork::ConnectionId;
use eventwork::codec::encode_packet;
use eventwork::server::NetworkServer;
use eventwork::stream::decode_stream;
use eventwork::stream::RecvEnd;

fn pkt(kind: &str, data: &str) -> NetworkPacket {
    NetworkPacket {
        kind: kind.as_bytes().to_vec(),
        data: data.as_bytes().to_vec(),
    }
}

#[test]
fn fresh_server_is_idle() {
    let mut server = NetworkServer::new();
    assert!(!server.is_listening());
    assert_eq!(server.connection_count(), 0);
    assert!(server.poll_events().is_empty());
    assert!(server.poll_errors().is_empty());
}

#[test]
fn connections_get_distinct_ids_and_notifications() {
    let mut server = NetworkServer::new();
    server.listen().unwrap();
    let (a, _rx_a) = server.open_connection().unwrap();
    let (b, _rx_b) = server.open_connection().unwrap();
    assert_ne!(a, b);
    assert_eq!(server.connection_count(), 2);
    let events = server.poll_events();
    assert_eq!(events, vec![ServerNetworkEvent::Connected(a), ServerNetworkEvent::Connected(b)]);
}

#[test]
fn send_message_to_unknown_id_fails() {
    let server = NetworkServer::new();
    let ghost_id = ConnectionId { id: 42 };
    assert_eq!(
        server.send_message(ghost_id, &pkt("chat", "hi")),
        Err(NetworkError::ConnectionNotFound(ghost_id))
    );
}

#[test]
fn send_message_delivers_the_exact_frame() {
    let mut server = NetworkServer::new();
    server.listen().unwrap();
    let (a, rx_a) = server.open_connection().unwrap();
    let p = pkt("chat", "to a");
    server.send_message(a, &p).unwrap();
    assert_eq!(rx_a.try_recv().unwrap(), encode_packet(&p));
    assert!(rx_a.try_recv().is_err());
}

#[test]
fn send_message_to_closed_channel_reports_it() {
    let mut server = NetworkServer::new();
    server.listen().unwrap();
    let (a, rx_a) = server.open_connection().unwrap();
    drop(rx_a);
    assert_eq!(
        server.send_message(a, &pkt("chat", "hi")),
        Err(NetworkError::ChannelClosed(a))
    );
}

#[test]
fn broadcast_reaches_every_connection() {
    let mut server = NetworkServer::new();
    server.listen().unwrap();
    let (_a, rx_a) = server.open_connection().unwrap();
    let (_b, rx_b) = server.open_connection().unwrap();
    let p = pkt("chat", "all");
    let attempted = server.broadcast(&p);
    assert_eq!(attempted, 2);
    assert_eq!(rx_a.try_recv().unwrap(), encode_packet(&p));
    assert_eq!(rx_b.try_recv().unwrap(), encode_packet(&p));
    assert!(rx_a.try_recv().is_err());
    assert!(rx_b.try_recv().is_err());
}

#[test]
fn broadcast_survives_one_dead_connection() {
    let mut server = NetworkServer::new();
    server.listen().unwrap();
    let (_a, rx_a) = server.open_connection().unwrap();
    let (_b, rx_b) = server.open_connection().unwrap();
    drop(rx_a);
    let p = pkt("chat", "still here");
    let attempted = server.broadcast(&p);
    assert_eq!(attempted, 2);
    assert_eq!(rx_b.try_recv().unwrap(), encode_packet(&p));
}

#[test]
fn explicit_disconnect_is_exact_about_membership() {
    let mut server = NetworkServer::new();
    server.listen().unwrap();
    let (a, _rx_a) = server.open_connection().unwrap();
    assert_eq!(server.disconnect(a), Ok(()));
    assert_eq!(server.connection_count(), 0);
    assert_eq!(server.disconnect(a), Err(NetworkError::ConnectionNotFound(a)));
}

#[test]
fn stop_disconnects_everyone_and_keeps_registrations() {
    let mut server = NetworkServer::new();
    assert!(server.register_message_kind(b"chat".to_vec()));
    server.listen().unwrap();
    let (a, _rx_a) = server.open_connection().unwrap();
    let (b, _rx_b) = server.open_connection().unwrap();
    server.receive_packet(a, pkt("chat", "pending"));
    server.poll_events();

    server.stop();
    assert!(!server.is_listening());
    assert_eq!(server.connection_count(), 0);
    let events = server.poll_events();
    assert_eq!(events.len(), 2);
    assert!(events.contains(&ServerNetworkEvent::Disconnected(a)));
    assert!(events.contains(&ServerNetworkEvent::Disconnected(b)));
    // The pending payload is gone, but the kind stays registered.
    assert!(server.poll_messages(&b"chat".to_vec()).is_empty());
    assert!(server.receive_packet(a, pkt("chat", "after")));

    // Stopping again changes nothing.
    server.stop();
    assert!(server.poll_events().is_empty());
}

#[test]
fn queues_tag_payloads_with_their_origin() {
    let mut server = NetworkServer::new();
    server.listen().unwrap();
    let (a, _rx_a) = server.open_connection().unwrap();
    let (b, _rx_b) = server.open_connection().unwrap();
    server.register_message_kind(b"chat".to_vec());
    server.receive_packet(a, pkt("chat", "from a"));
    server.receive_packet(b, pkt("chat", "from b"));
    server.receive_packet(a, pkt("chat", "again a"));
    let drained = server.poll_messages(&b"chat".to_vec());
    let got: Vec<(u64, &[u8])> = drained.iter().map(|e| (e.0, e.1.as_slice())).collect();
    assert_eq!(got, vec![
        (a.id, &b"from a"[..]),
        (b.id, &b"from b"[..]),
        (a.id, &b"again a"[..]),
    ]);
}

#[test]
fn transport_errors_surface_through_polling() {
    let mut server = NetworkServer::new();
    server.report_error(NetworkError::Listen("address in use".to_string()));
    server.report_error(NetworkError::Accept("connection reset".to_string()));
    let errors = server.poll_errors();
    assert_eq!(errors, vec![
        NetworkError::Listen("address in use".to_string()),
        NetworkError::Accept("connection reset".to_string()),
    ]);
    assert!(server.poll_errors().is_empty());
}

#[test]
fn oversized_peer_is_removed_with_one_notification_and_no_payload() {
    // A peer announces a body longer than the maximum.  The receive path
    // stops before reading the body, the connection is removed, exactly one
    // Disconnected notification comes out, and no queue ever sees data.
    let mut server = NetworkServer::new();
    server.register_message_kind(b"chat".to_vec());
    server.listen().unwrap();
    let (peer, _rx) = server.open_connection().unwrap();
    server.poll_events();

    let max: usize = 64;
    let mut wire = Vec::new();
    wire.extend_from_slice(&(max as u64 + 1).to_le_bytes());
    wire.extend_from_slice(&vec![b'x'; max + 1]);
    let (packets, end) = decode_stream(&wire, max);
    assert!(packets.is_empty());
    assert_eq!(end, RecvEnd::OversizedPacket);

    for p in packets {
        server.receive_packet(peer, p);
    }
    server.handle_disconnect(peer);

    assert_eq!(server.connection_count(), 0);
    assert_eq!(server.poll_events(), vec![ServerNetworkEvent::Disconnected(peer)]);
    assert!(server.poll_messages(&b"chat".to_vec()).is_empty());
}

#[test]
fn listen_restarts_cleanly() {
    let mut server = NetworkServer::new();
    server.listen().unwrap();
    let (a, _rx_a) = server.open_connection().unwrap();
    server.poll_events();
    server.listen().unwrap();
    assert!(server.is_listening());
    assert_eq!(server.connection_count(), 0);
    assert_eq!(server.poll_events(), vec![ServerNetworkEvent::Disconnected(a)]);
}
