//! Host-side client for the CMSIS-DAP debug-probe protocol.
//!
//! The library covers the protocol's encoding and decoding layer: command
//! identifiers, the pin bitmask used by the SWJ pin operations, the packer
//! for irregular bit-length JTAG sequences, the per-operation frame codec,
//! and the thin session state machine that ties them together. The byte
//! transport — USB bulk endpoints, for a typical probe — stays outside:
//! the session builds request frames and interprets response frames,
//! while the caller moves the bytes.

pub mod codec;
pub mod command;
pub mod errors;
pub mod pins;
pub mod sequence;
pub mod session;

use vstd::prelude::*;

verus! {

/// Largest frame, request or response, the transport can carry in one packet.
pub const MAX_PACKET_SIZE: usize = 512;

} // verus!
