//! Marker types naming the reference TCP transport.
//!
//! The cores in this crate are transport-agnostic; a host picks a transport
//! by implementing its accept, connect, receive and send loops around the
//! verified codec and cores.  These two markers name the stream-socket
//! reference transport so an embedder can select it by type.

use vstd::prelude::*;

verus! {

/// Selects the stream-socket transport for a server: an accept loop that
/// produces one socket per peer, and per-connection receive and send loops
/// speaking the crate's length-prefixed framing.
#[derive(Clone, Copy, Debug, Default)]
pub struct TcpServerProvider;

/// Selects the stream-socket transport for a client: a single connect
/// attempt, and one receive and one send loop speaking the crate's
/// length-prefixed framing.
#[derive(Clone, Copy, Debug, Default)]
pub struct TcpClientProvider;

} // verus!
