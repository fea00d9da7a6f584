//! A transport-agnostic, bidirectional client/server messaging core.
//!
//! The crate verifies the logic of a length-prefixed wire protocol and the
//! bookkeeping around it: the packet codec, the receive-loop decisions, the
//! per-kind message dispatch registry, and the client and server connection
//! lifecycles.  Transport I/O itself (sockets, async tasks) lives outside the
//! library; the library is driven through plain values and hands plain values
//! back.

pub mod client;
pub mod codec;
pub mod concurrent;
pub mod registry;
pub mod server;
pub mod stream;
pub mod tcp;

use vstd::prelude::*;

verus! {

/// One framed unit on the wire: a kind tag plus the serialized message body.
/// Both fields hold UTF-8 text as raw bytes.
pub struct NetworkPacket {
    /// Stable name of the application message type; the dispatch key.
    pub kind: Vec<u8>,
    /// Serialized message body, opaque to the messaging core.
    pub data: Vec<u8>,
}

impl NetworkPacket {
    /// The mathematical value of a packet: the pair of its byte sequences.
    pub open spec fn view(&self) -> (Seq<u8>, Seq<u8>) {
        (self.kind@, self.data@)
    }
}

/// Identifies one established peer connection.
#[derive(Clone, Copy, Debug, PartialEq, Eq, Hash, Structural)]
pub struct ConnectionId {
    /// The raw identifier.  A server hands them out one by one; a client
    /// uses the fixed sentinel for its single peer.
    pub id: u64,
}

impl ConnectionId {
    /// The sentinel a client uses for its one peer, the server.
    pub fn server() -> (r: Self)
        ensures
            r.id == 0,
    {
        ConnectionId { id: 0 }
    }
}

/// The errors the messaging core reports.
#[derive(Clone, Debug, PartialEq, Eq)]
pub enum NetworkError {
    /// A send was attempted while no connection is established.
    NotConnected,
    /// An operation named a connection the server does not track.
    ConnectionNotFound(ConnectionId),
    /// The target connection's send task has already exited.
    ChannelClosed(ConnectionId),
    /// Binding the listener failed; carries the transport's message.
    Listen(String),
    /// Accepting a peer failed; carries the transport's message.
    Accept(String),
    /// Connecting to the server failed; carries the transport's message.
    Connection(String),
}

/// Lifecycle notifications a client surfaces to its host, one poll at a time.
#[derive(Clone, Debug, PartialEq, Eq)]
pub enum ClientNetworkEvent {
    /// A connection to the server was established.
    Connected,
    /// The connection to the server ended.
    Disconnected,
    /// A background connection attempt failed.
    Error(NetworkError),
}

/// Lifecycle notifications a server surfaces to its host, one poll at a time.
#[derive(Clone, Debug, PartialEq, Eq)]
pub enum ServerNetworkEvent {
    /// A new peer connection was established.
    Connected(ConnectionId),
    /// A peer connection ended.
    Disconnected(ConnectionId),
}

/// Configuration for one listen or connect attempt.
#[derive(Clone, Debug, PartialEq, Eq)]
pub struct NetworkSettings {
    /// Maximum announced packet body in bytes.  A peer that exceeds it is
    /// disconnected before the body is read.
    pub max_packet_length: usize,
    /// The transport endpoint to listen on or connect to.
    pub addr: String,
}

impl NetworkSettings {
    /// Settings for an address, with the default 10 MiB packet bound.
    pub fn new(addr: String) -> (r: Self)
        ensures
            r.max_packet_length == 10 * 1024 * 1024,
            r.addr == addr,
    {
        NetworkSettings { max_packet_length: 10 * 1024 * 1024, addr }
    }
}

} // verus!
