//! The receive loop, as a function of the bytes a peer sent.
//!
//! [`decode_stream`] consumes a byte stream frame by frame and says exactly
//! which packets come out and why the loop stops.  The incremental decision
//! that an I/O driver takes after reading one header is [`header_action`].

use vstd::prelude::*;
use vstd::slice::slice_subrange;
use crate::NetworkPacket;
use crate::codec::le_value;
use crate::codec::parse_envelope;
use crate::codec::envelope;
use crate::codec::frame;
use crate::codec::le_bytes;
use crate::codec::decode_header;
use crate::codec::decode_envelope;
use crate::codec::lemma_le_round_trip;
use crate::codec::lemma_le_bytes_len;
use crate::codec::lemma_envelope_round_trip;

verus! {

/// Why a receive loop stopped consuming its stream.
#[derive(Clone, Copy, Debug, PartialEq, Eq, Structural)]
pub enum RecvEnd {
    /// The stream ended cleanly on a frame boundary: the peer disconnected.
    CleanDisconnect,
    /// The stream ended inside a length prefix.
    MalformedHeader,
    /// A length prefix announced more than the configured maximum; the body
    /// is never read.
    OversizedPacket,
    /// The stream ended inside a frame body.
    TruncatedBody,
    /// A frame body was not one well-formed envelope.
    DecodeFailure,
}

/// Everything a receive loop does with a byte stream: the packets it hands
/// on, in arrival order, and the way it stops.
pub open spec fn stream_spec(input: Seq<u8>, max: int) -> (Seq<(Seq<u8>, Seq<u8>)>, RecvEnd)
    decreases input.len(),
{
    if input.len() == 0 {
        (Seq::empty(), RecvEnd::CleanDisconnect)
    } else if input.len() < 8 {
        (Seq::empty(), RecvEnd::MalformedHeader)
    } else {
        let n = le_value(input.take(8));
        if n > max {
            (Seq::empty(), RecvEnd::OversizedPacket)
        } else if input.len() - 8 < n {
            (Seq::empty(), RecvEnd::TruncatedBody)
        } else {
            let body = input.subrange(8, 8 + n as int);
            match parse_envelope(body) {
                None => (Seq::empty(), RecvEnd::DecodeFailure),
                Some(kd) => {
                    let rest = stream_spec(input.skip(8 + n as int), max);
                    (seq![kd] + rest.0, rest.1)
                },
            }
        }
    }
}

/// Decodes every complete frame of a byte stream.  Returns the packets in
/// arrival order together with the reason the loop stopped, exactly as
/// [`stream_spec`] describes.
pub fn decode_stream(input: &[u8], max_packet_length: usize) -> (r: (Vec<NetworkPacket>, RecvEnd))
    ensures
        r.0@.map_values(|p: NetworkPacket| p@) == stream_spec(input@, max_packet_length as int).0,
        r.1 == stream_spec(input@, max_packet_length as int).1,
{
    let ghost whole = stream_spec(input@, max_packet_length as int);
    let mut packets: Vec<NetworkPacket> = Vec::new();
    let mut pos: usize = 0;
    proof {
        assert(input@.skip(0) =~= input@);
        assert(packets@.map_values(|p: NetworkPacket| p@) =~= Seq::<(Seq<u8>, Seq<u8>)>::empty());
        assert(whole.0 =~= Seq::<(Seq<u8>, Seq<u8>)>::empty() + whole.0);
    }
    loop
        invariant
            pos <= input@.len(),
            whole == stream_spec(input@, max_packet_length as int),
            whole.0 == packets@.map_values(|p: NetworkPacket| p@)
                + stream_spec(input@.skip(pos as int), max_packet_length as int).0,
            whole.1 == stream_spec(input@.skip(pos as int), max_packet_length as int).1,
        decreases input@.len() - pos,
    {
        let ghost rem = input@.skip(pos as int);
        let avail = input.len() - pos;
        if avail == 0 {
            proof {
                assert(rem.len() == 0);
                assert(whole.0 =~= packets@.map_values(|p: NetworkPacket| p@));
            }
            return (packets, RecvEnd::CleanDisconnect);
        }
        if avail < 8 {
            proof {
                assert(whole.0 =~= packets@.map_values(|p: NetworkPacket| p@));
            }
            return (packets, RecvEnd::MalformedHeader);
        }
        let header = slice_subrange(input, pos, pos + 8);
        proof {
            assert(header@ =~= rem.take(8));
        }
        let n = decode_header(header);
        if n > max_packet_length as u64 {
            proof {
                assert(whole.0 =~= packets@.map_values(|p: NetworkPacket| p@));
            }
            return (packets, RecvEnd::OversizedPacket);
        }
        let n_us = n as usize;
        if avail - 8 < n_us {
            proof {
                assert(whole.0 =~= packets@.map_values(|p: NetworkPacket| p@));
            }
            return (packets, RecvEnd::TruncatedBody);
        }
        let body = slice_subrange(input, pos + 8, pos + 8 + n_us);
        proof {
            assert(body@ =~= rem.subrange(8, 8 + n as int));
        }
        match decode_envelope(body) {
            None => {
                proof {
                    assert(whole.0 =~= packets@.map_values(|p: NetworkPacket| p@));
                }
                return (packets, RecvEnd::DecodeFailure);
            },
            Some(p) => {
                proof {
                    assert(rem.skip(8 + n as int) =~= input@.skip(pos as int + 8 + n as int));
                    let f = |q: NetworkPacket| q@;
                    assert(packets@.push(p).map_values(f) =~= packets@.map_values(f) + seq![p@]);
                    let tail = stream_spec(rem.skip(8 + n as int), max_packet_length as int);
                    assert(stream_spec(rem, max_packet_length as int)
                        == (seq![(p.kind@, p.data@)] + tail.0, tail.1));
                    assert(packets@.map_values(f) + (seq![p@] + tail.0)
                        =~= (packets@.map_values(f) + seq![p@]) + tail.0);
                }
                packets.push(p);
                pos = pos + 8 + n_us;
            },
        }
    }
}

/// The byte stream that carries a given sequence of packets, one frame each.
pub open spec fn frames_of(ps: Seq<(Seq<u8>, Seq<u8>)>) -> Seq<u8>
    decreases ps.len(),
{
    if ps.len() == 0 {
        Seq::empty()
    } else {
        frame(ps[0].0, ps[0].1) + frames_of(ps.drop_first())
    }
}

/// Sending any packets in order and closing the stream delivers exactly
/// those packets, in the same order, and ends as a clean disconnect: the
/// codec round trip and the clean end-of-stream rule in one statement.
pub proof fn lemma_stream_of_frames(ps: Seq<(Seq<u8>, Seq<u8>)>, max: int)
    requires
        max <= u64::MAX,
        forall|i: int| 0 <= i < ps.len() ==> #[trigger] envelope(ps[i].0, ps[i].1).len() <= max,
    ensures
        stream_spec(frames_of(ps), max) == (ps, RecvEnd::CleanDisconnect),
    decreases ps.len(),
{
    if ps.len() == 0 {
        assert(stream_spec(frames_of(ps), max) == (Seq::<(Seq<u8>, Seq<u8>)>::empty(), RecvEnd::CleanDisconnect));
        assert(ps =~= Seq::<(Seq<u8>, Seq<u8>)>::empty());
    } else {
        let p0 = ps[0];
        let e = envelope(p0.0, p0.1);
        let rest = frames_of(ps.drop_first());
        let input = frames_of(ps);
        lemma_le_bytes_len(e.len() as int);
        assert(input =~= frame(p0.0, p0.1) + rest);
        assert(input.len() >= 8 + e.len());
        assert(input.take(8) =~= le_bytes(e.len() as int));
        lemma_le_round_trip(e.len() as int);
        assert(le_value(input.take(8)) == e.len());
        assert(input.subrange(8, 8 + e.len() as int) =~= e);
        lemma_envelope_round_trip(p0.0, p0.1);
        assert(input.skip(8 + e.len() as int) =~= rest);
        lemma_stream_of_frames(ps.drop_first(), max);
        let tail = stream_spec(rest, max);
        assert(stream_spec(input, max) == (seq![(p0.0, p0.1)] + tail.0, tail.1));
        assert(seq![(p0.0, p0.1)] + ps.drop_first() =~= ps);
        assert((p0.0, p0.1) == p0);
    }
}

/// A length prefix above the maximum stops the stream at once: no packet of
/// that stream is delivered, whether or not the announced bytes follow.
pub proof fn lemma_oversized_stops(input: Seq<u8>, max: int)
    requires
        input.len() >= 8,
        le_value(input.take(8)) > max,
    ensures
        stream_spec(input, max) == (Seq::<(Seq<u8>, Seq<u8>)>::empty(), RecvEnd::OversizedPacket),
{
}

/// An empty stream — a peer that closes right on a frame boundary — ends as
/// a clean disconnect, never as an error.
pub proof fn lemma_clean_eof(max: int)
    ensures
        stream_spec(Seq::<u8>::empty(), max) == (Seq::<(Seq<u8>, Seq<u8>)>::empty(), RecvEnd::CleanDisconnect),
{
}

/// What an I/O driver does after one attempt to read a frame header.
#[derive(Clone, Copy, Debug, PartialEq, Eq, Structural)]
pub enum HeaderAction {
    /// Zero bytes were read: the peer closed cleanly; stop without error.
    Disconnect,
    /// A partial header was read: stop, the stream is malformed.
    Malformed,
    /// The announced body exceeds the maximum: drop the connection without
    /// reading the body.
    Oversized,
    /// Read exactly this many body bytes next.
    ReadBody(u64),
}

/// Decides what to do with the outcome of reading one 8-byte header.
pub fn header_action(bytes_read: usize, header: &[u8], max_packet_length: usize) -> (a: HeaderAction)
    requires
        header@.len() == 8,
    ensures
        bytes_read == 0 ==> a == HeaderAction::Disconnect,
        bytes_read != 0 && bytes_read != 8 ==> a == HeaderAction::Malformed,
        bytes_read == 8 && le_value(header@) > max_packet_length ==> a == HeaderAction::Oversized,
        bytes_read == 8 && le_value(header@) <= max_packet_length
            ==> a == HeaderAction::ReadBody(le_value(header@) as u64),
{
    if bytes_read == 0 {
        HeaderAction::Disconnect
    } else if bytes_read != 8 {
        HeaderAction::Malformed
    } else {
        let n = decode_header(header);
        if n > max_packet_length as u64 {
            HeaderAction::Oversized
        } else {
            HeaderAction::ReadBody(n)
        }
    }
}

} // verus!
