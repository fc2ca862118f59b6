//! Core of the "flow" network transport: a bidirectional, multiplexed,
//! message-oriented RPC substrate layered on top of a reliable byte stream.
//!
//! The library holds the verified logic of the transport: the 128-bit
//! endpoint identifiers and their well-known range, the length-delimited
//! frame codec with its optional checksum, the connect-packet exchange and
//! its state machine, the request router with its pending-reply table, the
//! admission-control accounting, and the sender's batching discipline.
//! All I/O lives outside the library and hands it plain values.

use vstd::prelude::*;

pub mod checksum;
pub mod codec;
pub mod connection;
pub mod errors;
pub mod frame;
pub mod limits;
pub mod receiver;
pub mod router;
pub mod sender;
pub mod uid;
