//! Error types surfaced by the protocol layer.
//!
//! Transport failures are raised below the core and passed through
//! unchanged; protocol failures are raised by the codec and the session.

use vstd::prelude::*;

verus! {

/// A failure of the underlying byte channel.
#[derive(Clone, Copy, Debug, PartialEq, Eq, Structural)]
pub enum TransportError {
    /// The bounded transfer timeout elapsed.
    Timeout,
    /// A generic I/O failure reported by the channel.
    Io,
    /// The device disappeared (unplugged, re-enumerated).
    DeviceGone,
}

/// A violation of the CMSIS-DAP wire protocol, detected before sending a
/// frame or while interpreting a response.
#[derive(Clone, Copy, Debug, PartialEq, Eq, Structural)]
pub enum ProtocolError {
    /// The first byte of a response did not echo the command that was sent.
    UnexpectedCommandEcho,
    /// A response was empty or had a length other than the one the
    /// operation mandates.
    MalformedResponse,
    /// A sequence operation held more segments than the protocol's
    /// one-byte count can carry, or its frame would not fit in one packet.
    SegmentCountOverflow,
    /// A request frame would exceed the transport's packet size.
    FrameTooLarge,
    /// An operation that requires a connected target was issued while the
    /// session was disconnected.
    NotConnected,
}

/// Either kind of failure, as returned by session operations.
#[derive(Clone, Copy, Debug, PartialEq, Eq, Structural)]
pub enum DapError {
    /// The byte channel failed; the session state is unchanged.
    Transport(TransportError),
    /// The exchange violated the protocol; the session state is unchanged.
    Protocol(ProtocolError),
}

} // verus!
