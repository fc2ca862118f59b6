//! Frames and the message envelope that carries them between the
//! halves of a connection.
//!
//! A frame is a token-addressed unit of the wire protocol: a 128-bit
//! token and an opaque payload. The payload is opaque to the core
//! except for its first four bytes, the little-endian "file identifier"
//! that selects the payload schema; a payload shorter than eight bytes
//! is malformed and is discarded without tearing the connection down.

use vstd::prelude::*;
use vstd::bytes::{spec_u32_from_le_bytes, u32_from_le_bytes};
use vstd::slice::slice_subrange;

use crate::errors::FlowError;
use crate::uid::UID;

verus! {

/// A payload must carry at least this many bytes of schema header.
pub const MIN_PAYLOAD_BYTES: usize = 8;

/// One unit of the wire protocol: an addressing token and an opaque
/// payload.
pub struct Frame {
    pub token: UID,
    pub payload: Vec<u8>,
}

/// The mathematical model of a frame.
pub struct FrameView {
    pub token: UID,
    pub payload: Seq<u8>,
}

impl View for Frame {
    type V = FrameView;

    open spec fn view(&self) -> FrameView {
        FrameView { token: self.token, payload: self.payload@ }
    }
}

impl FrameView {
    /// The payload is long enough to carry the schema header.
    pub open spec fn long_enough(self) -> bool {
        self.payload.len() >= MIN_PAYLOAD_BYTES
    }

    /// The little-endian file identifier in the first four payload
    /// bytes.
    pub open spec fn spec_file_identifier(self) -> u32
        recommends
            self.long_enough(),
    {
        spec_u32_from_le_bytes(self.payload.subrange(0, 4))
    }
}

impl Frame {
    /// Accept exactly the frames whose payload can carry the schema
    /// header; everything shorter is a non-fatal `FrameTooShort`.
    pub fn validate(&self) -> (r: Result<(), FlowError>)
        ensures
            r is Ok <==> self@.long_enough(),
            r is Err ==> r == Err::<(), FlowError>(FlowError::FrameTooShort),
    {
        if self.payload.len() < MIN_PAYLOAD_BYTES {
            Err(FlowError::FrameTooShort)
        } else {
            Ok(())
        }
    }

    /// Read the file identifier without consuming the frame; a payload
    /// too short for it is a `FrameTooShort`.
    pub fn peek_file_identifier(&self) -> (r: Result<u32, FlowError>)
        ensures
            r is Ok <==> self@.long_enough(),
            r matches Ok(id) ==> id == self@.spec_file_identifier(),
            r is Err ==> r == Err::<u32, FlowError>(FlowError::FrameTooShort),
    {
        if self.payload.len() < MIN_PAYLOAD_BYTES {
            Err(FlowError::FrameTooShort)
        } else {
            let head = slice_subrange(self.payload.as_slice(), 0, 4);
            Ok(u32_from_le_bytes(head))
        }
    }
}

/// A peer's address: the transport binds and connects over IPv4.
#[derive(Clone, Copy, Debug, PartialEq, Eq, Hash, Structural)]
pub struct NetAddress {
    pub ip: u32,
    pub port: u16,
}

/// One end of a flow: an optional local endpoint, or a remote peer.
#[derive(Clone, Copy, Debug, PartialEq, Eq, Structural)]
pub enum Peer {
    Local(Option<UID>),
    Remote(NetAddress),
}

/// The logical envelope of an in-flight message: where it came from
/// and where it goes.
#[derive(Clone, Copy, Debug, PartialEq, Eq, Structural)]
pub struct Flow {
    pub src: Peer,
    pub dst: Peer,
}

/// A frame together with its envelope and its parsed schema header.
/// Ownership is exclusive: a message handed to the sender queue is
/// read by no other task.
pub struct FlowMessage {
    pub flow: Flow,
    pub frame: Frame,
    pub file_identifier: u32,
}

impl FlowMessage {
    /// The cached header matches the payload bytes.
    pub open spec fn wf(self) -> bool {
        self.frame@.long_enough() && self.file_identifier == self.frame@.spec_file_identifier()
    }

    /// Wrap a frame in its envelope, caching the parsed header; a
    /// frame whose payload cannot carry the header is refused.
    pub fn new(flow: Flow, frame: Frame) -> (r: Result<FlowMessage, FlowError>)
        ensures
            r is Ok <==> frame@.long_enough(),
            r matches Ok(m) ==> m.flow == flow && m.frame@ == frame@ && m.wf(),
            r is Err ==> r == Err::<FlowMessage, FlowError>(FlowError::FrameTooShort),
    {
        let file_identifier = match frame.peek_file_identifier() {
            Ok(id) => id,
            Err(e) => {
                return Err(e);
            },
        };
        Ok(FlowMessage { flow, frame, file_identifier })
    }
}

} // verus!
