//! The server core: an unbounded set of established connections keyed by
//! connection id, a dispatch registry for inbound messages, and queues of
//! lifecycle notifications and transport errors the host drains each poll
//! cycle.
//!
//! The core never touches a socket.  The transport's accept loop and the
//! per-connection send and receive loops run outside; for each accepted
//! socket the embedder calls [`NetworkServer::open_connection`] and wires
//! the returned channel end into the send loop.

use vstd::prelude::*;
use crate::NetworkPacket;
use crate::NetworkError;
use crate::ConnectionId;
use crate::ServerNetworkEvent;
use crate::codec::encode_packet;
use crate::concurrent::ConnTable;
use crate::concurrent::FrameReceiver;
use crate::concurrent::sender_ids;
use crate::concurrent::conn_map_new;
use crate::concurrent::conn_map_insert;
use crate::concurrent::conn_map_remove;
use crate::concurrent::conn_map_get;
use crate::concurrent::conn_map_ids;
use crate::concurrent::conn_map_len;
use crate::concurrent::channel_unbounded;
use crate::concurrent::channel_try_send;
use crate::concurrent::no_queues;
use crate::concurrent::no_entries;
use crate::registry::MessageRegistry;

verus! {

/// The Disconnected notifications for a run of connection ids.
pub open spec fn disconnect_events(ids: Seq<u64>) -> Seq<ServerNetworkEvent> {
    ids.map_values(|id: u64| ServerNetworkEvent::Disconnected(ConnectionId { id }))
}

/// A server endpoint: the host registers message kinds once, listens, and
/// then polls connections, messages and errors each cycle.
pub struct NetworkServer {
    listening: bool,
    connections: ConnTable,
    next_id: u64,
    registry: MessageRegistry,
    events: Vec<ServerNetworkEvent>,
    errors: Vec<NetworkError>,
}

impl NetworkServer {
    /// Whether an accept loop is currently running on the server's behalf.
    pub closed spec fn listening(&self) -> bool {
        self.listening
    }

    /// The raw ids of the established connections.
    pub closed spec fn connections_view(&self) -> Set<u64> {
        sender_ids(self.connections)
    }

    /// The registered kinds and their queued entries.
    pub closed spec fn registry_view(&self) -> Map<Seq<u8>, Seq<(u64, Seq<u8>)>> {
        self.registry@
    }

    /// The lifecycle notifications not yet polled, oldest first.
    pub closed spec fn events_view(&self) -> Seq<ServerNetworkEvent> {
        self.events@
    }

    /// The transport errors not yet polled, oldest first.
    pub closed spec fn errors_view(&self) -> Seq<NetworkError> {
        self.errors@
    }

    /// The id the next accepted connection will get.
    pub closed spec fn next_connection_id(&self) -> u64 {
        self.next_id
    }

    /// The server's internal invariant: the connection set is finite,
    /// every established id is below the next one to be handed out, so
    /// ids are never reused, and the client sentinel id is never handed out.
    pub closed spec fn wf(&self) -> bool {
        &&& sender_ids(self.connections).finite()
        &&& forall|id: u64| sender_ids(self.connections).contains(id) ==> 0 < id < self.next_id
        &&& self.next_id >= 1
    }

    /// A fresh server: not listening, no connections, nothing registered,
    /// no pending notifications.
    pub fn new() -> (r: Self)
        ensures
            r.wf(),
            !r.listening(),
            r.connections_view() == Set::<u64>::empty(),
            r.registry_view() == no_queues(),
            r.events_view() == Seq::<ServerNetworkEvent>::empty(),
            r.errors_view() == Seq::<NetworkError>::empty(),
    {
        NetworkServer {
            listening: false,
            connections: conn_map_new(),
            next_id: 1,
            registry: MessageRegistry::new(),
            events: Vec::new(),
            errors: Vec::new(),
        }
    }

    /// Starts listening for new peers.  Anything the server was doing
    /// before is torn down first, exactly as [`Self::stop`] does it.
    pub fn listen(&mut self) -> (r: Result<(), NetworkError>)
        requires
            old(self).wf(),
        ensures
            final(self).wf(),
            r is Ok,
            final(self).listening(),
            final(self).errors_view() == old(self).errors_view(),
            final(self).next_connection_id() == old(self).next_connection_id(),
            !old(self).listening() ==> final(self).connections_view() == old(self).connections_view()
                && final(self).registry_view() == old(self).registry_view()
                && final(self).events_view() == old(self).events_view(),
            old(self).listening() ==> {
                &&& final(self).connections_view() == Set::<u64>::empty()
                &&& final(self).registry_view().dom() == old(self).registry_view().dom()
                &&& forall|k: Seq<u8>| final(self).registry_view().dom().contains(k)
                    ==> final(self).registry_view()[k] == no_entries()
                &&& exists|ids: Seq<u64>|
                    ids.no_duplicates()
                    && ids.to_set() == old(self).connections_view()
                    && final(self).events_view() == old(self).events_view() + disconnect_events(ids)
            },
    {
        self.stop();
        self.listening = true;
        Ok(())
    }

    /// Disconnects every client, empties every message queue and stops
    /// listening, queueing one Disconnected notification per removed
    /// connection.  Idempotent: a server that is not listening is left
    /// exactly as it is.
    pub fn stop(&mut self)
        requires
            old(self).wf(),
        ensures
            final(self).wf(),
            !old(self).listening() ==> *final(self) == *old(self),
            old(self).listening() ==> {
                &&& !final(self).listening()
                &&& final(self).connections_view() == Set::<u64>::empty()
                &&& final(self).registry_view().dom() == old(self).registry_view().dom()
                &&& forall|k: Seq<u8>| final(self).registry_view().dom().contains(k)
                    ==> final(self).registry_view()[k] == no_entries()
                &&& final(self).errors_view() == old(self).errors_view()
                &&& final(self).next_connection_id() == old(self).next_connection_id()
                &&& exists|ids: Seq<u64>|
                    ids.no_duplicates()
                    && ids.to_set() == old(self).connections_view()
                    && final(self).events_view() == old(self).events_view() + disconnect_events(ids)
            },
    {
        if !self.listening {
            return;
        }
        let ids = conn_map_ids(&self.connections);
        let ghost dom0 = sender_ids(self.connections);
        let ghost events0 = self.events@;
        let mut i: usize = 0;
        proof {
            assert(ids@.take(0) =~= Seq::<u64>::empty());
            assert(disconnect_events(ids@.take(0)) =~= Seq::<ServerNetworkEvent>::empty());
            assert(self.events@ =~= events0 + disconnect_events(ids@.take(0)));
            assert(sender_ids(self.connections) =~= dom0.difference(ids@.take(0).to_set()));
        }
        while i < ids.len()
            invariant
                0 <= i <= ids@.len(),
                ids@.no_duplicates(),
                forall|j: int| 0 <= j < ids@.len() ==> dom0.contains(#[trigger] ids@[j]),
                forall|id: u64| dom0.contains(id)
                    ==> exists|j: int| 0 <= j < ids@.len() && #[trigger] ids@[j] == id,
                sender_ids(self.connections) == dom0.difference(ids@.take(i as int).to_set()),
                self.events@ == events0 + disconnect_events(ids@.take(i as int)),
                self.listening == old(self).listening,
                self.registry == old(self).registry,
                self.errors == old(self).errors,
                self.next_id == old(self).next_id,
            decreases ids@.len() - i,
        {
            let id = ids[i];
            conn_map_remove(&mut self.connections, id);
            self.events.push(ServerNetworkEvent::Disconnected(ConnectionId { id }));
            proof {
                assert(ids@.take(i + 1) =~= ids@.take(i as int).push(id));
                ids@.take(i as int).lemma_push_to_set_commute(id);
                assert(ids@.take(i + 1).to_set() =~= ids@.take(i as int).to_set().insert(id));
                assert(dom0.difference(ids@.take(i as int).to_set()).remove(id)
                    =~= dom0.difference(ids@.take(i + 1).to_set()));
                assert(disconnect_events(ids@.take(i + 1))
                    =~= disconnect_events(ids@.take(i as int)).push(
                        ServerNetworkEvent::Disconnected(ConnectionId { id })));
            }
            i = i + 1;
        }
        proof {
            assert(ids@.take(ids@.len() as int) =~= ids@);
            assert(dom0.difference(ids@.to_set()) =~= Set::<u64>::empty());
        }
        self.registry.clear_queues();
        self.listening = false;
        proof {
            assert(ids@.no_duplicates() && ids@.to_set() =~= dom0
                && self.events@ == events0 + disconnect_events(ids@));
        }
    }

    /// Admits one accepted socket: assigns the next connection id, creates
    /// the outgoing frame channel, queues the Connected notification, and
    /// hands back the id with the channel's receiving end for the
    /// transport's send loop.  Yields nothing only when the id space is
    /// exhausted.
    pub fn open_connection(&mut self) -> (r: Option<(ConnectionId, FrameReceiver)>)
        requires
            old(self).wf(),
        ensures
            final(self).wf(),
            old(self).next_connection_id() == u64::MAX ==> r is None && *final(self) == *old(self),
            old(self).next_connection_id() < u64::MAX ==> match r {
                Some(pair) => {
                    &&& pair.0.id == old(self).next_connection_id()
                    &&& !old(self).connections_view().contains(pair.0.id)
                    &&& final(self).connections_view()
                        == old(self).connections_view().insert(pair.0.id)
                    &&& final(self).next_connection_id() == old(self).next_connection_id() + 1
                    &&& final(self).events_view() == old(self).events_view().push(
                        ServerNetworkEvent::Connected(pair.0))
                    &&& final(self).registry_view() == old(self).registry_view()
                    &&& final(self).errors_view() == old(self).errors_view()
                    &&& final(self).listening() == old(self).listening()
                },
                None => false,
            },
    {
        if self.next_id == u64::MAX {
            return None;
        }
        let id = self.next_id;
        self.next_id = self.next_id + 1;
        let (tx, rx) = channel_unbounded();
        conn_map_insert(&mut self.connections, id, tx);
        let conn_id = ConnectionId { id };
        self.events.push(ServerNetworkEvent::Connected(conn_id));
        Some((conn_id, rx))
    }

    /// Removes one connection at the host's request.  The embedder then
    /// aborts the connection's tasks.  No notification is queued for an
    /// explicit disconnect; fails exactly when the id is unknown.
    pub fn disconnect(&mut self, conn_id: ConnectionId) -> (r: Result<(), NetworkError>)
        requires
            old(self).wf(),
        ensures
            final(self).wf(),
            final(self).connections_view() == old(self).connections_view().remove(conn_id.id),
            old(self).connections_view().contains(conn_id.id) ==> r is Ok,
            !old(self).connections_view().contains(conn_id.id)
                ==> (r matches Err(e) && e == NetworkError::ConnectionNotFound(conn_id)),
            final(self).listening() == old(self).listening(),
            final(self).next_connection_id() == old(self).next_connection_id(),
            final(self).registry_view() == old(self).registry_view(),
            final(self).events_view() == old(self).events_view(),
            final(self).errors_view() == old(self).errors_view(),
    {
        if conn_map_remove(&mut self.connections, conn_id.id) {
            Ok(())
        } else {
            Err(NetworkError::ConnectionNotFound(conn_id))
        }
    }

    /// Removes a connection whose receive loop ended — the peer is gone —
    /// and queues exactly one Disconnected notification for it.
    pub fn handle_disconnect(&mut self, conn_id: ConnectionId)
        requires
            old(self).wf(),
        ensures
            final(self).wf(),
            final(self).connections_view() == old(self).connections_view().remove(conn_id.id),
            final(self).events_view() == old(self).events_view().push(
                ServerNetworkEvent::Disconnected(conn_id)),
            final(self).listening() == old(self).listening(),
            final(self).registry_view() == old(self).registry_view(),
            final(self).errors_view() == old(self).errors_view(),
    {
        conn_map_remove(&mut self.connections, conn_id.id);
        self.events.push(ServerNetworkEvent::Disconnected(conn_id));
    }

    /// Frames one packet and queues it on one client's outgoing channel.
    /// Fails with ConnectionNotFound exactly when the id is unknown, and
    /// with ChannelClosed when that connection's send task has exited.
    pub fn send_message(&self, recipient: ConnectionId, packet: &NetworkPacket) -> (r: Result<(), NetworkError>)
        ensures
            (r matches Err(e) && e == NetworkError::ConnectionNotFound(recipient))
                <==> !self.connections_view().contains(recipient.id),
            r is Ok ==> self.connections_view().contains(recipient.id),
            r matches Err(e) ==> e == NetworkError::ConnectionNotFound(recipient)
                || e == NetworkError::ChannelClosed(recipient),
    {
        match conn_map_get(&self.connections, recipient.id) {
            None => Err(NetworkError::ConnectionNotFound(recipient)),
            Some(tx) => {
                let encoded = encode_packet(packet);
                if channel_try_send(&tx, encoded) {
                    Ok(())
                } else {
                    Err(NetworkError::ChannelClosed(recipient))
                }
            },
        }
    }

    /// Frames one packet and offers it to every established connection,
    /// best effort: a connection whose send task has exited is skipped and
    /// never aborts the rest, and no error reaches the caller.  Returns how
    /// many connections were offered the packet: always all of them.
    pub fn broadcast(&self, packet: &NetworkPacket) -> (attempted: usize)
        requires
            self.wf(),
        ensures
            attempted == self.connections_view().len(),
    {
        let ids = conn_map_ids(&self.connections);
        proof {
            ids@.unique_seq_to_set();
            assert(ids@.to_set() =~= sender_ids(self.connections));
        }
        let encoded = encode_packet(packet);
        let mut i: usize = 0;
        while i < ids.len()
            invariant
                0 <= i <= ids@.len(),
            decreases ids@.len() - i,
        {
            match conn_map_get(&self.connections, ids[i]) {
                None => {},
                Some(tx) => {
                    let frame_copy = encode_packet(packet);
                    channel_try_send(&tx, frame_copy);
                },
            }
            i = i + 1;
        }
        let _ = encoded;
        ids.len()
    }

    /// How many connections are currently established.
    pub fn connection_count(&self) -> (r: usize)
        ensures
            r == self.connections_view().len(),
    {
        conn_map_len(&self.connections)
    }

    /// Whether the accept loop is running.
    pub fn is_listening(&self) -> (r: bool)
        ensures
            r == self.listening(),
    {
        self.listening
    }

    /// Registers interest in a message kind.  Registering the same kind
    /// twice is a programmer error: the duplicate reports failure and
    /// changes nothing, so the embedder can fail fast at setup.
    pub fn register_message_kind(&mut self, kind: Vec<u8>) -> (r: bool)
        ensures
            r == !old(self).registry_view().dom().contains(kind@),
            r ==> final(self).registry_view()
                == old(self).registry_view().insert(kind@, no_entries()),
            !r ==> final(self).registry_view() == old(self).registry_view(),
            final(self).listening() == old(self).listening(),
            final(self).connections_view() == old(self).connections_view(),
            final(self).events_view() == old(self).events_view(),
            final(self).errors_view() == old(self).errors_view(),
            old(self).wf() ==> final(self).wf(),
    {
        self.registry.register(kind)
    }

    /// Dispatches one decoded inbound packet: appends its payload, tagged
    /// with the origin connection's id, to its kind's queue.  A packet of
    /// an unregistered kind is dropped and reported, and no queue moves.
    pub fn receive_packet(&mut self, source: ConnectionId, packet: NetworkPacket) -> (r: bool)
        ensures
            r == old(self).registry_view().dom().contains(packet.kind@),
            r ==> final(self).registry_view() == old(self).registry_view().insert(
                packet.kind@,
                old(self).registry_view()[packet.kind@].push((source.id, packet.data@)),
            ),
            !r ==> final(self).registry_view() == old(self).registry_view(),
            final(self).listening() == old(self).listening(),
            final(self).connections_view() == old(self).connections_view(),
            final(self).events_view() == old(self).events_view(),
            final(self).errors_view() == old(self).errors_view(),
            old(self).wf() ==> final(self).wf(),
    {
        self.registry.dispatch(source.id, &packet.kind, packet.data)
    }

    /// Removes and returns everything queued for a kind, in arrival order;
    /// each entry carries the origin connection's raw id and the payload.
    pub fn poll_messages(&mut self, kind: &Vec<u8>) -> (r: Vec<(u64, Vec<u8>)>)
        ensures
            old(self).registry_view().dom().contains(kind@)
                ==> crate::concurrent::entries_view(r@) == old(self).registry_view()[kind@]
                    && final(self).registry_view()
                        == old(self).registry_view().insert(kind@, no_entries()),
            !old(self).registry_view().dom().contains(kind@)
                ==> r@.len() == 0 && final(self).registry_view() == old(self).registry_view(),
            final(self).listening() == old(self).listening(),
            final(self).connections_view() == old(self).connections_view(),
            final(self).events_view() == old(self).events_view(),
            final(self).errors_view() == old(self).errors_view(),
            old(self).wf() ==> final(self).wf(),
    {
        self.registry.drain(kind)
    }

    /// Removes and returns every pending lifecycle notification, oldest
    /// first.
    pub fn poll_events(&mut self) -> (r: Vec<ServerNetworkEvent>)
        ensures
            r@ == old(self).events_view(),
            final(self).events_view() == Seq::<ServerNetworkEvent>::empty(),
            final(self).listening() == old(self).listening(),
            final(self).connections_view() == old(self).connections_view(),
            final(self).registry_view() == old(self).registry_view(),
            final(self).errors_view() == old(self).errors_view(),
            old(self).wf() ==> final(self).wf(),
    {
        let mut out: Vec<ServerNetworkEvent> = Vec::new();
        std::mem::swap(&mut out, &mut self.events);
        out
    }

    /// Queues a transport error the accept loop reports.
    pub fn report_error(&mut self, error: NetworkError)
        ensures
            final(self).errors_view() == old(self).errors_view().push(error),
            final(self).listening() == old(self).listening(),
            final(self).connections_view() == old(self).connections_view(),
            final(self).registry_view() == old(self).registry_view(),
            final(self).events_view() == old(self).events_view(),
            old(self).wf() ==> final(self).wf(),
    {
        self.errors.push(error);
    }

    /// Removes and returns every pending transport error, oldest first.
    pub fn poll_errors(&mut self) -> (r: Vec<NetworkError>)
        ensures
            r@ == old(self).errors_view(),
            final(self).errors_view() == Seq::<NetworkError>::empty(),
            final(self).listening() == old(self).listening(),
            final(self).connections_view() == old(self).connections_view(),
            final(self).registry_view() == old(self).registry_view(),
            final(self).events_view() == old(self).events_view(),
            old(self).wf() ==> final(self).wf(),
    {
        let mut out: Vec<NetworkError> = Vec::new();
        std::mem::swap(&mut out, &mut self.errors);
        out
    }
}

} // verus!
