//! Error kinds of the transport core.
//!
//! Transport, handshake and codec errors are fatal to the connection that
//! raised them; a too-short frame is discarded without tearing the
//! connection down; an unknown endpoint is answered over the wire and is
//! not an error of the core at all.

use vstd::prelude::*;

verus! {

/// Every failure the transport core can report.
#[derive(Clone, Copy, Debug, PartialEq, Eq, Structural)]
pub enum FlowError {
    /// An endpoint identifier string is not 32 hexadecimal characters.
    UidParse,
    /// A frame's length word is zero.
    LengthZero,
    /// A frame's length word is positive but smaller than the token it
    /// must cover.
    LengthUnderMin,
    /// A frame's length word exceeds the configured maximum.
    LengthOverMax,
    /// The byte stream ended in the middle of a frame or of a connect
    /// packet.
    Truncated,
    /// The checksum word of a frame does not match its token and payload.
    ChecksumMismatch,
    /// A frame's payload is shorter than the fixed header prefix; the
    /// frame is discarded, the connection survives.
    FrameTooShort,
    /// The peer's connect packet announces an incompatible protocol.
    HandshakeMismatch,
    /// An operation was attempted in a connection state that forbids it.
    ConnectionClosed,
    /// A well-known token was offered as a pending-reply key.
    WellKnownReplyToken,
    /// A pending-reply key is already present in the table.
    DuplicateReplyToken,
}

impl FlowError {
    /// A short, stable label for logs and tests.
    pub fn label(&self) -> (r: &'static str)
        ensures
            r@.len() > 0,
    {
        proof {
            reveal_strlit("uid_parse");
            reveal_strlit("length_zero");
            reveal_strlit("length_under_min");
            reveal_strlit("length_over_max");
            reveal_strlit("truncated");
            reveal_strlit("checksum_mismatch");
            reveal_strlit("frame_too_short");
            reveal_strlit("handshake_mismatch");
            reveal_strlit("connection_closed");
            reveal_strlit("well_known_reply_token");
            reveal_strlit("duplicate_reply_token");
        }
        match self {
            FlowError::UidParse => "uid_parse",
            FlowError::LengthZero => "length_zero",
            FlowError::LengthUnderMin => "length_under_min",
            FlowError::LengthOverMax => "length_over_max",
            FlowError::Truncated => "truncated",
            FlowError::ChecksumMismatch => "checksum_mismatch",
            FlowError::FrameTooShort => "frame_too_short",
            FlowError::HandshakeMismatch => "handshake_mismatch",
            FlowError::ConnectionClosed => "connection_closed",
            FlowError::WellKnownReplyToken => "well_known_reply_token",
            FlowError::DuplicateReplyToken => "duplicate_reply_token",
        }
    }
}

} // verus!
