//! The connect-packet exchange and the connection state machine.
//!
//! A connection wraps one reliable, ordered byte stream. Immediately
//! upon construction each peer sends its own connect packet and then
//! reads the other's before any frame is accepted; version and feature
//! flags decide compatibility and whether frames carry a checksum.
//! The states run New, HandshakeSent, HandshakeReceived, Ready,
//! Closed; errors go straight to Closed, and a closed connection
//! rejects every further operation. Frame bytes can be produced or
//! accepted only in Ready, so every frame on the wire is preceded by a
//! completed handshake.
//!
//! The state machine here is pure: the surrounding tasks move the
//! bytes and feed them in.

use vstd::prelude::*;
use vstd::bytes::{
    lemma_auto_spec_u16_to_from_le_bytes, lemma_auto_spec_u32_to_from_le_bytes,
    lemma_auto_spec_u64_to_from_le_bytes, spec_u16_from_le_bytes, spec_u16_to_le_bytes,
    spec_u32_from_le_bytes, spec_u32_to_le_bytes, spec_u64_from_le_bytes, spec_u64_to_le_bytes,
    u16_from_le_bytes, u16_to_le_bytes, u32_from_le_bytes, u32_to_le_bytes, u64_from_le_bytes,
    u64_to_le_bytes,
};
use vstd::slice::slice_subrange;

use crate::codec;
use crate::errors::FlowError;
use crate::frame::{Frame, NetAddress};

verus! {

/// Wire size of a connect packet.
pub const CONNECT_PACKET_BYTES: usize = 18;

/// Feature flag: the peer offers checksummed framing.
pub const FLAG_CHECKSUM: u32 = 1;

/// The fixed-shape handshake message, exchanged exactly once in each
/// direction before any frame: protocol version, feature flags, and
/// the sender's canonical address.
#[derive(Clone, Copy, Debug, PartialEq, Eq, Structural)]
pub struct ConnectPacket {
    pub protocol_version: u64,
    pub flags: u32,
    pub canonical_address: NetAddress,
}

/// On the wire: version (8 bytes), flags (4), address ip (4) and
/// port (2), all little-endian.
pub open spec fn spec_encode_connect_packet(p: ConnectPacket) -> Seq<u8> {
    spec_u64_to_le_bytes(p.protocol_version) + spec_u32_to_le_bytes(p.flags)
        + spec_u32_to_le_bytes(p.canonical_address.ip) + spec_u16_to_le_bytes(
        p.canonical_address.port,
    )
}

/// The packet written by 18 wire bytes.
pub open spec fn spec_decode_connect_packet(s: Seq<u8>) -> ConnectPacket
    recommends
        s.len() == CONNECT_PACKET_BYTES,
{
    ConnectPacket {
        protocol_version: spec_u64_from_le_bytes(s.subrange(0, 8)),
        flags: spec_u32_from_le_bytes(s.subrange(8, 12)),
        canonical_address: NetAddress {
            ip: spec_u32_from_le_bytes(s.subrange(12, 16)),
            port: spec_u16_from_le_bytes(s.subrange(16, 18)),
        },
    }
}

impl ConnectPacket {
    /// The peer offers checksummed framing.
    pub open spec fn spec_wants_checksum(self) -> bool {
        self.flags & FLAG_CHECKSUM == FLAG_CHECKSUM
    }

    /// Two peers can talk: they speak the same protocol version.
    pub open spec fn spec_compatible(self, other: ConnectPacket) -> bool {
        self.protocol_version == other.protocol_version
    }

    /// Frames carry a checksum only when both peers offer it.
    pub open spec fn spec_negotiated_checksum(self, other: ConnectPacket) -> bool {
        self.spec_wants_checksum() && other.spec_wants_checksum()
    }

    /// Serialize the packet for the wire.
    pub fn encode(&self) -> (r: Vec<u8>)
        ensures
            r@ == spec_encode_connect_packet(*self),
            r@.len() == CONNECT_PACKET_BYTES,
    {
        proof {
            lemma_auto_spec_u64_to_from_le_bytes();
            lemma_auto_spec_u32_to_from_le_bytes();
            lemma_auto_spec_u16_to_from_le_bytes();
        }
        let mut out: Vec<u8> = u64_to_le_bytes(self.protocol_version);
        let mut flags_bytes: Vec<u8> = u32_to_le_bytes(self.flags);
        let mut ip_bytes: Vec<u8> = u32_to_le_bytes(self.canonical_address.ip);
        let mut port_bytes: Vec<u8> = u16_to_le_bytes(self.canonical_address.port);
        out.append(&mut flags_bytes);
        out.append(&mut ip_bytes);
        out.append(&mut port_bytes);
        out
    }

    /// Parse a packet from the first 18 buffered bytes; fewer bytes
    /// mean the stream ended mid-handshake.
    pub fn decode(bytes: &[u8]) -> (r: Result<ConnectPacket, FlowError>)
        ensures
            r is Ok <==> bytes@.len() >= CONNECT_PACKET_BYTES,
            r matches Ok(p) ==> p == spec_decode_connect_packet(
                bytes@.subrange(0, CONNECT_PACKET_BYTES as int),
            ),
            r is Err ==> r == Err::<ConnectPacket, FlowError>(FlowError::Truncated),
    {
        proof {
            lemma_auto_spec_u64_to_from_le_bytes();
            lemma_auto_spec_u32_to_from_le_bytes();
            lemma_auto_spec_u16_to_from_le_bytes();
        }
        if bytes.len() < CONNECT_PACKET_BYTES {
            return Err(FlowError::Truncated);
        }
        let protocol_version = u64_from_le_bytes(slice_subrange(bytes, 0, 8));
        let flags = u32_from_le_bytes(slice_subrange(bytes, 8, 12));
        let ip = u32_from_le_bytes(slice_subrange(bytes, 12, 16));
        let port = u16_from_le_bytes(slice_subrange(bytes, 16, 18));
        let p = ConnectPacket { protocol_version, flags, canonical_address: NetAddress { ip, port } };
        proof {
            let prefix = bytes@.subrange(0, CONNECT_PACKET_BYTES as int);
            assert(bytes@.subrange(0, 8) =~= prefix.subrange(0, 8));
            assert(bytes@.subrange(8, 12) =~= prefix.subrange(8, 12));
            assert(bytes@.subrange(12, 16) =~= prefix.subrange(12, 16));
            assert(bytes@.subrange(16, 18) =~= prefix.subrange(16, 18));
        }
        Ok(p)
    }
}

/// Encoding then decoding a connect packet is the identity: the
/// handshake survives the wire bit-exactly.
pub proof fn lemma_connect_packet_round_trip(p: ConnectPacket)
    ensures
        spec_encode_connect_packet(p).len() == CONNECT_PACKET_BYTES,
        spec_decode_connect_packet(spec_encode_connect_packet(p)) == p,
{
    lemma_auto_spec_u64_to_from_le_bytes();
    lemma_auto_spec_u32_to_from_le_bytes();
    lemma_auto_spec_u16_to_from_le_bytes();
    let e = spec_encode_connect_packet(p);
    assert(e.subrange(0, 8) =~= spec_u64_to_le_bytes(p.protocol_version));
    assert(e.subrange(8, 12) =~= spec_u32_to_le_bytes(p.flags));
    assert(e.subrange(12, 16) =~= spec_u32_to_le_bytes(p.canonical_address.ip));
    assert(e.subrange(16, 18) =~= spec_u16_to_le_bytes(p.canonical_address.port));
}

/// The lifecycle states of a connection.
#[derive(Clone, Copy, Debug, PartialEq, Eq, Structural)]
pub enum ConnState {
    New,
    HandshakeSent,
    HandshakeReceived,
    Ready,
    Closed,
}

/// One connection's handshake and framing state. The byte stream
/// itself lives with the caller; this machine decides what may be
/// sent or accepted, and with which framing.
pub struct Connection {
    pub state: ConnState,
    pub local: ConnectPacket,
    pub peer: Option<ConnectPacket>,
    pub with_checksum: bool,
}

impl Connection {
    /// The machine's invariant: once a peer packet has been read it is
    /// recorded, and checksummed framing is exactly what the two
    /// packets negotiated.
    pub open spec fn wf(self) -> bool {
        &&& (self.state == ConnState::HandshakeReceived || self.state == ConnState::Ready)
            ==> self.peer is Some
        &&& self.state == ConnState::Ready ==> self.local.spec_compatible(self.peer->0)
        &&& self.state == ConnState::Ready ==> self.with_checksum
            == self.local.spec_negotiated_checksum(self.peer->0)
    }

    /// A fresh connection around a newly accepted or connected stream.
    pub fn new(local: ConnectPacket) -> (r: Connection)
        ensures
            r.wf(),
            r.state == ConnState::New,
            r.local == local,
            r.peer is None,
    {
        Connection { state: ConnState::New, local, peer: None, with_checksum: false }
    }

    /// Step 1 of the handshake: emit the local connect packet, exactly
    /// once, before anything else.
    pub fn send_connect_packet(&mut self) -> (r: Result<Vec<u8>, FlowError>)
        requires
            old(self).wf(),
        ensures
            final(self).wf(),
            final(self).local == old(self).local,
            final(self).peer == old(self).peer,
            old(self).state == ConnState::New ==> {
                &&& final(self).state == ConnState::HandshakeSent
                &&& r matches Ok(b) && b@ == spec_encode_connect_packet(old(self).local)
            },
            old(self).state != ConnState::New ==> *final(self) == *old(self) && r == Err::<
                Vec<u8>,
                FlowError,
            >(FlowError::ConnectionClosed),
    {
        if !matches!(self.state, ConnState::New) {
            return Err(FlowError::ConnectionClosed);
        }
        self.state = ConnState::HandshakeSent;
        Ok(self.local.encode())
    }

    /// Step 2: absorb the peer's connect packet. A short read closes
    /// the connection.
    pub fn receive_connect_packet(&mut self, bytes: &[u8]) -> (r: Result<(), FlowError>)
        requires
            old(self).wf(),
        ensures
            final(self).wf(),
            final(self).local == old(self).local,
            old(self).state != ConnState::HandshakeSent ==> *final(self) == *old(self) && r
                == Err::<(), FlowError>(FlowError::ConnectionClosed),
            old(self).state == ConnState::HandshakeSent && bytes@.len() >= CONNECT_PACKET_BYTES
                ==> {
                &&& r is Ok
                &&& final(self).state == ConnState::HandshakeReceived
                &&& final(self).peer == Some(
                    spec_decode_connect_packet(bytes@.subrange(0, CONNECT_PACKET_BYTES as int)),
                )
            },
            old(self).state == ConnState::HandshakeSent && bytes@.len() < CONNECT_PACKET_BYTES
                ==> {
                &&& r == Err::<(), FlowError>(FlowError::Truncated)
                &&& final(self).state == ConnState::Closed
            },
    {
        if !matches!(self.state, ConnState::HandshakeSent) {
            return Err(FlowError::ConnectionClosed);
        }
        match ConnectPacket::decode(bytes) {
            Ok(p) => {
                self.peer = Some(p);
                self.state = ConnState::HandshakeReceived;
                Ok(())
            },
            Err(e) => {
                self.state = ConnState::Closed;
                Err(e)
            },
        }
    }

    /// Step 3: compare version and feature flags. Compatible peers
    /// reach Ready with the negotiated framing; incompatible peers are
    /// closed with a handshake mismatch.
    pub fn complete_handshake(&mut self) -> (r: Result<(), FlowError>)
        requires
            old(self).wf(),
        ensures
            final(self).wf(),
            final(self).local == old(self).local,
            final(self).peer == old(self).peer,
            old(self).state != ConnState::HandshakeReceived ==> *final(self) == *old(self) && r
                == Err::<(), FlowError>(FlowError::ConnectionClosed),
            old(self).state == ConnState::HandshakeReceived && old(self).local.spec_compatible(
                old(self).peer->0,
            ) ==> {
                &&& r is Ok
                &&& final(self).state == ConnState::Ready
                &&& final(self).with_checksum == old(self).local.spec_negotiated_checksum(
                    old(self).peer->0,
                )
            },
            old(self).state == ConnState::HandshakeReceived && !old(self).local.spec_compatible(
                old(self).peer->0,
            ) ==> {
                &&& r == Err::<(), FlowError>(FlowError::HandshakeMismatch)
                &&& final(self).state == ConnState::Closed
            },
    {
        if !matches!(self.state, ConnState::HandshakeReceived) {
            return Err(FlowError::ConnectionClosed);
        }
        let peer = match &self.peer {
            Some(p) => *p,
            None => {
                self.state = ConnState::Closed;
                return Err(FlowError::ConnectionClosed);
            },
        };
        if self.local.protocol_version != peer.protocol_version {
            self.state = ConnState::Closed;
            return Err(FlowError::HandshakeMismatch);
        }
        let local_wants = self.local.flags & FLAG_CHECKSUM == FLAG_CHECKSUM;
        let peer_wants = peer.flags & FLAG_CHECKSUM == FLAG_CHECKSUM;
        self.with_checksum = local_wants && peer_wants;
        self.state = ConnState::Ready;
        Ok(())
    }

    /// Tear the connection down; every further operation is rejected.
    pub fn close(&mut self)
        ensures
            final(self).wf(),
            final(self).state == ConnState::Closed,
            final(self).local == old(self).local,
            final(self).peer == old(self).peer,
    {
        self.state = ConnState::Closed;
    }

    /// Serialize a frame for this connection's wire. Only a Ready
    /// connection may emit frames — so every frame on the stream is
    /// preceded by a successful handshake — and only with the
    /// negotiated framing.
    pub fn frame_bytes(&self, frame: &Frame) -> (r: Result<Vec<u8>, FlowError>)
        requires
            self.wf(),
        ensures
            self.state != ConnState::Ready ==> r == Err::<Vec<u8>, FlowError>(
                FlowError::ConnectionClosed,
            ),
            self.state == ConnState::Ready && !codec::spec_frame_wf(frame@) ==> r == Err::<
                Vec<u8>,
                FlowError,
            >(FlowError::LengthOverMax),
            self.state == ConnState::Ready && codec::spec_frame_wf(frame@) ==> (r matches Ok(b)
                && b@ == codec::spec_encode_frame(frame@, self.with_checksum)),
    {
        if !matches!(self.state, ConnState::Ready) {
            return Err(FlowError::ConnectionClosed);
        }
        if frame.payload.len() > codec::MAX_PAYLOAD_BYTES {
            return Err(FlowError::LengthOverMax);
        }
        let mut out: Vec<u8> = Vec::new();
        codec::write_frame(&mut out, frame, self.with_checksum);
        Ok(out)
    }

    /// Every frame on the wire is preceded by a successful handshake
    /// exchange: the only state whose connection emits or accepts
    /// frame bytes is Ready, and in Ready the peer's connect packet
    /// has been read, found compatible, and fixed the framing.
    pub proof fn lemma_ready_implies_handshake(self)
        requires
            self.wf(),
            self.state == ConnState::Ready,
        ensures
            self.peer is Some,
            self.local.spec_compatible(self.peer->0),
            self.with_checksum == self.local.spec_negotiated_checksum(self.peer->0),
    {
    }

    /// Read one frame from buffered stream bytes. Only a Ready
    /// connection accepts frames, and it reads them with the
    /// negotiated framing.
    pub fn read_wire(&self, buf: &[u8], pos: usize) -> (r: Result<
        Option<(Frame, usize)>,
        FlowError,
    >)
        requires
            self.wf(),
            pos <= buf@.len(),
        ensures
            self.state != ConnState::Ready ==> r == Err::<Option<(Frame, usize)>, FlowError>(
                FlowError::ConnectionClosed,
            ),
            self.state == ConnState::Ready ==> codec::read_result_view(r)
                == codec::spec_read_frame(buf@, pos as int, self.with_checksum),
    {
        if !matches!(self.state, ConnState::Ready) {
            return Err(FlowError::ConnectionClosed);
        }
        codec::read_frame(buf, pos, self.with_checksum)
    }
}

} // verus!
