//! A simple networking layer for the Stahl IPC.
//!
//! The verified core of the library: the wire format of frames, the codec
//! around it, the handles of tasks, and the routing decisions of the
//! server, kept apart from the socket and the timers that drive them.
mod codec;
mod frame;
mod handle;
mod outside;
mod peer;
mod server;
mod types;

pub use crate::codec::Codec;
pub use crate::frame::{
    body_len, lemma_parse_serialize_roundtrip, lemma_serialize_parse_roundtrip, spec_parse,
    spec_serialize, u64_at, Frame, FrameView,
};
pub use crate::handle::{Delivery, TaskHandle, TaskHandleView};
pub use crate::outside::{ClockReading, Delivered, Refused};
pub use crate::peer::PeerAddr;
pub use crate::server::{
    handled, lemma_broadcast_reaches_each_peer_once, lemma_expiry_idempotent,
    lemma_expiry_keeps_exactly_the_unexpired, lemma_peer_hello_idempotent, lemma_route_releases_queue, lemma_taken_task_hello_is_announced, lemma_known_task_bye_is_announced, lemma_peer_bye_forgets_only_that_peer, forwards,
    lemma_routes_change_only_on_task_frames, lemma_spawn_then_bye_leaves_no_trace,
    lemma_task_bye_forgets_local_task, lemma_task_hello_never_lengthens_routes, next_hop,
    partially_expired, unexpired, Outgoing, QueuedMessage, Server, ServerView,
    DEFAULT_QUEUE_TIMEOUT, MAX_DURATION_NANOS,
};
pub use crate::types::{lemma_id_conversions_roundtrip, MessageTypeID, TaskID};

use vstd::prelude::*;

verus! {

/// Declares `std::io::Error`, which the `Io` variant carries.
#[verifier::external_type_specification]
#[verifier::external_body]
pub struct ExIoError(std::io::Error);

/// An error deserializing a datagram received from the network.
#[derive(Debug)]
pub enum Error {
    /// An I/O error.
    Io(std::io::Error),
    /// An unexpected end of packet while parsing an incoming data packet.
    UnexpectedEof,
    /// A packet had trailing data.
    UnexpectedTrailing,
    /// An unknown frame type was encountered.
    UnknownFrameType(u8),
    /// The server has shut down, so a message cannot be sent any more.
    ShuttingDown,
}

impl From<std::io::Error> for Error {
    fn from(err: std::io::Error) -> (r: Error) {
        Error::Io(err)
    }
}

impl vstd::std_specs::convert::FromSpecImpl<std::io::Error> for Error {
    open spec fn obeys_from_spec() -> bool {
        true
    }

    open spec fn from_spec(err: std::io::Error) -> Error {
        Error::Io(err)
    }
}

} // verus!
