//! The client core: at most one outbound connection, a dispatch registry
//! for inbound messages, and a queue of lifecycle notifications the host
//! drains each poll cycle.
//!
//! The core never touches a socket.  The transport's connect task and the
//! per-connection send and receive loops run outside; they hand the core a
//! decoded packet or an event, and take the outgoing frame channel's
//! receiving end from [`NetworkClient::establish_connection`].

use vstd::prelude::*;
use crate::NetworkPacket;
use crate::NetworkError;
use crate::ClientNetworkEvent;
use crate::codec::encode_packet;
use crate::concurrent::FrameReceiver;
use crate::concurrent::FrameSender;
use crate::concurrent::channel_unbounded;
use crate::concurrent::channel_try_send;
use crate::concurrent::no_queues;
use crate::concurrent::no_entries;
use crate::registry::MessageRegistry;

verus! {

/// The raw id a client attaches to everything its one peer sends: the
/// sentinel of [`crate::ConnectionId::server`].
pub open spec fn server_sentinel() -> u64 {
    0
}

/// A client endpoint: the host registers message kinds once, connects, and
/// then polls messages and events each cycle.
pub struct NetworkClient {
    server_tx: Option<FrameSender>,
    registry: MessageRegistry,
    events: Vec<ClientNetworkEvent>,
}

impl NetworkClient {
    /// Whether a connection to the server is currently held.
    pub closed spec fn connected(&self) -> bool {
        self.server_tx is Some
    }

    /// The registered kinds and their queued entries.
    pub closed spec fn registry_view(&self) -> Map<Seq<u8>, Seq<(u64, Seq<u8>)>> {
        self.registry@
    }

    /// The lifecycle notifications not yet polled, oldest first.
    pub closed spec fn events_view(&self) -> Seq<ClientNetworkEvent> {
        self.events@
    }

    /// A fresh client: not connected, nothing registered, no events.
    pub fn new() -> (r: Self)
        ensures
            !r.connected(),
            r.registry_view() == no_queues(),
            r.events_view() == Seq::<ClientNetworkEvent>::empty(),
    {
        NetworkClient {
            server_tx: None,
            registry: MessageRegistry::new(),
            events: Vec::new(),
        }
    }

    /// Starts a fresh connection attempt: an existing connection is
    /// disconnected first, with its notification.  The embedder then spawns
    /// the transport's connect task and later reports its outcome through
    /// [`Self::establish_connection`] or [`Self::push_event`].
    pub fn connect(&mut self)
        ensures
            !final(self).connected(),
            final(self).registry_view() == old(self).registry_view(),
            old(self).connected() ==> final(self).events_view()
                == old(self).events_view().push(ClientNetworkEvent::Disconnected),
            !old(self).connected() ==> *final(self) == *old(self),
    {
        self.disconnect();
    }

    /// Drops the connection to the server and queues one Disconnected
    /// notification.  Idempotent: with no connection held it changes
    /// nothing at all.
    pub fn disconnect(&mut self)
        ensures
            !final(self).connected(),
            final(self).registry_view() == old(self).registry_view(),
            old(self).connected() ==> final(self).events_view()
                == old(self).events_view().push(ClientNetworkEvent::Disconnected),
            !old(self).connected() ==> *final(self) == *old(self),
    {
        if self.server_tx.is_some() {
            self.server_tx = None;
            self.events.push(ClientNetworkEvent::Disconnected);
        }
    }

    /// Installs the connection for a socket the connect task produced:
    /// creates the outgoing frame channel, keeps its sending end, queues
    /// the Connected notification, and hands back the receiving end for
    /// the transport's send loop.
    pub fn establish_connection(&mut self) -> (rx: FrameReceiver)
        ensures
            final(self).connected(),
            final(self).registry_view() == old(self).registry_view(),
            final(self).events_view() == old(self).events_view().push(ClientNetworkEvent::Connected),
    {
        let (tx, rx) = channel_unbounded();
        self.server_tx = Some(tx);
        self.events.push(ClientNetworkEvent::Connected);
        rx
    }

    /// Queues an event a background task reports: a connect error, or the
    /// receive loop's end.
    pub fn push_event(&mut self, event: ClientNetworkEvent)
        ensures
            final(self).connected() == old(self).connected(),
            final(self).registry_view() == old(self).registry_view(),
            final(self).events_view() == old(self).events_view().push(event),
    {
        self.events.push(event);
    }

    /// Removes and returns every pending lifecycle notification, oldest
    /// first.
    pub fn poll_events(&mut self) -> (r: Vec<ClientNetworkEvent>)
        ensures
            r@ == old(self).events_view(),
            final(self).events_view() == Seq::<ClientNetworkEvent>::empty(),
            final(self).connected() == old(self).connected(),
            final(self).registry_view() == old(self).registry_view(),
    {
        let mut out: Vec<ClientNetworkEvent> = Vec::new();
        std::mem::swap(&mut out, &mut self.events);
        out
    }

    /// Frames one packet and queues it on the connection's outgoing
    /// channel.  Fails with NotConnected when no connection is established,
    /// and also when the connection's send task has already exited.
    pub fn send_message(&self, packet: &NetworkPacket) -> (r: Result<(), NetworkError>)
        ensures
            !self.connected() ==> (r matches Err(e) && e == NetworkError::NotConnected),
            r is Ok ==> self.connected(),
            r is Err ==> (r matches Err(e) && e == NetworkError::NotConnected),
    {
        match &self.server_tx {
            None => Err(NetworkError::NotConnected),
            Some(tx) => {
                let encoded = encode_packet(packet);
                if channel_try_send(tx, encoded) {
                    Ok(())
                } else {
                    Err(NetworkError::NotConnected)
                }
            },
        }
    }

    /// True when a connection is established.  May be stale if the peer
    /// already dropped without producing a local disconnect event yet.
    pub fn is_connected(&self) -> (r: bool)
        ensures
            r == self.connected(),
    {
        self.server_tx.is_some()
    }

    /// Registers interest in a message kind.  Registering the same kind
    /// twice is a programmer error: the duplicate reports failure and
    /// changes nothing, so the embedder can fail fast at setup.
    pub fn register_message_kind(&mut self, kind: Vec<u8>) -> (r: bool)
        ensures
            r == !old(self).registry_view().dom().contains(kind@),
            r ==> final(self).registry_view()
                == old(self).registry_view().insert(kind@, no_entries()),
            !r ==> final(self).registry_view() == old(self).registry_view(),
            final(self).connected() == old(self).connected(),
            final(self).events_view() == old(self).events_view(),
    {
        self.registry.register(kind)
    }

    /// Dispatches one decoded inbound packet: appends its payload, tagged
    /// with the server sentinel, to its kind's queue.  A packet of an
    /// unregistered kind is dropped and reported.
    pub fn receive_packet(&mut self, packet: NetworkPacket) -> (r: bool)
        ensures
            r == old(self).registry_view().dom().contains(packet.kind@),
            r ==> final(self).registry_view() == old(self).registry_view().insert(
                packet.kind@,
                old(self).registry_view()[packet.kind@].push((server_sentinel(), packet.data@)),
            ),
            !r ==> final(self).registry_view() == old(self).registry_view(),
            final(self).connected() == old(self).connected(),
            final(self).events_view() == old(self).events_view(),
    {
        self.registry.dispatch(0, &packet.kind, packet.data)
    }

    /// Removes and returns everything queued for a kind, in arrival order;
    /// each entry carries the server sentinel id and the raw payload.
    pub fn poll_messages(&mut self, kind: &Vec<u8>) -> (r: Vec<(u64, Vec<u8>)>)
        ensures
            old(self).registry_view().dom().contains(kind@)
                ==> crate::concurrent::entries_view(r@) == old(self).registry_view()[kind@]
                    && final(self).registry_view()
                        == old(self).registry_view().insert(kind@, no_entries()),
            !old(self).registry_view().dom().contains(kind@)
                ==> r@.len() == 0 && final(self).registry_view() == old(self).registry_view(),
            final(self).connected() == old(self).connected(),
            final(self).events_view() == old(self).events_view(),
    {
        self.registry.drain(kind)
    }
}

} // verus!
