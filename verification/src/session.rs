//! The probe session.
//!
//! A session is the thin orchestration layer over the codec and the
//! packer. The byte transport is an external collaborator, so each
//! logical operation comes as a pair: a `*_request` method that builds
//! the exact frame to hand to the transport, and a `*_finish` method
//! that takes the transport's outcome — the response bytes, or a
//! transport error — and produces the operation's typed result. A
//! transport or protocol failure never changes the session's logical
//! state; only a successful connect exchange moves it to `Connected`.
//!
//! The protocol is strictly half-duplex: the caller must complete one
//! request/finish pair before starting the next on the same session.

use vstd::prelude::*;

use crate::codec;
use crate::errors::{DapError, ProtocolError, TransportError};
use crate::pins::PinMask;
use crate::sequence::{all_wf, models, SequenceSegment};

verus! {

/// The session's logical connection state.
#[derive(Clone, Copy, Debug, PartialEq, Eq, Structural)]
pub enum SessionState {
    /// No successful Connect exchange has happened yet.
    Disconnected,
    /// A Connect exchange succeeded.
    Connected,
}

/// The state a connect exchange leaves the session in: `Connected` on
/// success, the prior state on any failure.
pub open spec fn spec_connect_step(s: SessionState, success: bool) -> SessionState {
    if success {
        SessionState::Connected
    } else {
        s
    }
}

/// A connect exchange succeeds exactly when its response passes the
/// header checks.
pub open spec fn spec_connect_ok(resp: Seq<u8>) -> bool {
    codec::spec_frame_check(resp, 0x02, 2) is None
}

/// One half-duplex command/response session against a debug probe.
pub struct ProbeSession {
    state: SessionState,
}

impl View for ProbeSession {
    type V = SessionState;

    /// The session's logical connection state.
    closed spec fn view(&self) -> SessionState {
        self.state
    }
}

impl ProbeSession {
    /// A fresh session: the transport is open, no Connect was issued.
    pub fn new() -> (r: ProbeSession)
        ensures
            r@ == SessionState::Disconnected,
    {
        ProbeSession { state: SessionState::Disconnected }
    }

    /// Whether a Connect exchange has succeeded.
    pub fn is_connected(&self) -> (r: bool)
        ensures
            r == (self@ == SessionState::Connected),
    {
        match self.state {
            SessionState::Connected => true,
            SessionState::Disconnected => false,
        }
    }

    /// End the session's logical connection.
    pub fn disconnect(&mut self)
        ensures
            final(self)@ == SessionState::Disconnected,
    {
        self.state = SessionState::Disconnected;
    }

    /// Build the request frame of an Info exchange.
    pub fn info_request(&self, info_id: u8) -> (r: Vec<u8>)
        ensures
            r@ == codec::spec_info_request(info_id),
    {
        codec::encode_info(info_id)
    }

    /// Interpret the transport's outcome of an Info exchange.
    pub fn info_finish(&self, outcome: Result<Vec<u8>, TransportError>) -> (r: Result<
        Vec<u8>,
        DapError,
    >)
        ensures
            match outcome {
                Err(t) => r == Err::<Vec<u8>, DapError>(DapError::Transport(t)),
                Ok(resp) => match codec::spec_decode_info(resp@) {
                    Ok(d) => r matches Ok(v) && v@ == d,
                    Err(p) => r == Err::<Vec<u8>, DapError>(DapError::Protocol(p)),
                },
            },
    {
        match outcome {
            Err(t) => Err(DapError::Transport(t)),
            Ok(resp) => match codec::decode_info(&resp) {
                Ok(d) => Ok(d),
                Err(p) => Err(DapError::Protocol(p)),
            },
        }
    }

    /// Build the request frame of a Connect exchange.
    pub fn connect_request(&self, mode: u8) -> (r: Vec<u8>)
        ensures
            r@ == codec::spec_connect_request(mode),
    {
        codec::encode_connect(mode)
    }

    /// Interpret the transport's outcome of a Connect exchange. On
    /// success the session becomes `Connected`; on a transport or
    /// protocol failure it keeps its prior state.
    pub fn connect_finish(&mut self, outcome: Result<Vec<u8>, TransportError>) -> (r: Result<
        u8,
        DapError,
    >)
        ensures
            final(self)@ == spec_connect_step(
                old(self)@,
                outcome matches Ok(resp) && spec_connect_ok(resp@),
            ),
            match outcome {
                Err(t) => r == Err::<u8, DapError>(DapError::Transport(t)),
                Ok(resp) => match codec::spec_frame_check(resp@, 0x02, 2) {
                    None => r == Ok::<u8, DapError>(resp@[1]),
                    Some(p) => r == Err::<u8, DapError>(DapError::Protocol(p)),
                },
            },
    {
        match outcome {
            Err(t) => Err(DapError::Transport(t)),
            Ok(resp) => match codec::decode_connect(&resp) {
                Ok(mode) => {
                    self.state = SessionState::Connected;
                    Ok(mode)
                },
                Err(p) => Err(DapError::Protocol(p)),
            },
        }
    }

    /// Build the request frame of an SWJ_Pins exchange.
    pub fn swj_pins_request(&self, output: PinMask, select: PinMask, wait_us: u32) -> (r: Vec<u8>)
        ensures
            r@ == codec::spec_swj_pins_request(output@, select@, wait_us),
    {
        codec::encode_swj_pins(output, select, wait_us)
    }

    /// Interpret the transport's outcome of an SWJ_Pins exchange: the
    /// post-change pin state.
    pub fn swj_pins_finish(&self, outcome: Result<Vec<u8>, TransportError>) -> (r: Result<
        PinMask,
        DapError,
    >)
        ensures
            match outcome {
                Err(t) => r == Err::<PinMask, DapError>(DapError::Transport(t)),
                Ok(resp) => match codec::spec_frame_check(resp@, 0x10, 2) {
                    None => r matches Ok(m) && m@ == PinMask::spec_from_byte(resp@[1]) && m.wf(),
                    Some(p) => r == Err::<PinMask, DapError>(DapError::Protocol(p)),
                },
            },
    {
        match outcome {
            Err(t) => Err(DapError::Transport(t)),
            Ok(resp) => match codec::decode_swj_pins(&resp) {
                Ok(m) => Ok(m),
                Err(p) => Err(DapError::Protocol(p)),
            },
        }
    }

    /// Build the request frame of an SWJ_Sequence exchange.
    pub fn swj_sequence_request(&self, bit_count: u8, data: &Vec<u8>) -> (r: Result<
        Vec<u8>,
        ProtocolError,
    >)
        ensures
            match r {
                Ok(f) => 2 + data@.len() <= crate::MAX_PACKET_SIZE && f@
                    == codec::spec_swj_sequence_request(bit_count, data@),
                Err(e) => e == ProtocolError::FrameTooLarge && 2 + data@.len()
                    > crate::MAX_PACKET_SIZE,
            },
    {
        codec::encode_swj_sequence(bit_count, data)
    }

    /// Interpret the transport's outcome of an SWJ_Sequence exchange.
    pub fn swj_sequence_finish(&self, outcome: Result<Vec<u8>, TransportError>) -> (r: Result<
        (),
        DapError,
    >)
        ensures
            match outcome {
                Err(t) => r == Err::<(), DapError>(DapError::Transport(t)),
                Ok(resp) => match codec::spec_frame_check(resp@, 0x12, 1) {
                    None => r is Ok,
                    Some(p) => r == Err::<(), DapError>(DapError::Protocol(p)),
                },
            },
    {
        match outcome {
            Err(t) => Err(DapError::Transport(t)),
            Ok(resp) => match codec::decode_swj_sequence(&resp) {
                Ok(u) => Ok(u),
                Err(p) => Err(DapError::Protocol(p)),
            },
        }
    }

    /// Build the request frame of a JTAG_Sequence exchange.
    pub fn jtag_sequence_request(&self, segs: &Vec<SequenceSegment>) -> (r: Result<
        Vec<u8>,
        ProtocolError,
    >)
        requires
            all_wf(segs@),
        ensures
            match r {
                Ok(f) => segs@.len() <= 255 && 2 + crate::sequence::spec_pack(
                    models(segs@),
                ).len() <= crate::MAX_PACKET_SIZE && f@ == codec::spec_jtag_sequence_request(
                    models(segs@),
                ),
                Err(e) => e == ProtocolError::SegmentCountOverflow && (segs@.len() > 255 || 2
                    + crate::sequence::spec_pack(models(segs@)).len() > crate::MAX_PACKET_SIZE),
            },
    {
        codec::encode_jtag_sequence(segs)
    }

    /// Interpret the transport's outcome of a JTAG_Sequence exchange
    /// against the segment list that was sent: one captured chunk per
    /// capture-enabled segment, in list order.
    pub fn jtag_sequence_finish(
        &self,
        segs: &Vec<SequenceSegment>,
        outcome: Result<Vec<u8>, TransportError>,
    ) -> (r: Result<Vec<Vec<u8>>, DapError>)
        requires
            all_wf(segs@),
            segs@.len() <= 255,
        ensures
            match outcome {
                Err(t) => r == Err::<Vec<Vec<u8>>, DapError>(DapError::Transport(t)),
                Ok(resp) => match codec::spec_frame_check(
                    resp@,
                    0x14,
                    1 + codec::spec_captured_len(models(segs@)),
                ) {
                    None => r matches Ok(chunks) && codec::chunk_models(chunks@)
                        == codec::spec_split_captured(models(segs@), resp@.skip(1)),
                    Some(p) => r == Err::<Vec<Vec<u8>>, DapError>(DapError::Protocol(p)),
                },
            },
    {
        match outcome {
            Err(t) => Err(DapError::Transport(t)),
            Ok(resp) => match codec::decode_jtag_sequence(segs, &resp) {
                Ok(chunks) => Ok(chunks),
                Err(p) => Err(DapError::Protocol(p)),
            },
        }
    }

    /// Build the request frame of a ResetTarget exchange. The protocol
    /// restricts target reset to a connected session, so a disconnected
    /// session is refused before any frame is built.
    pub fn reset_target_request(&self) -> (r: Result<Vec<u8>, ProtocolError>)
        ensures
            match r {
                Ok(f) => self@ == SessionState::Connected && f@
                    == codec::spec_reset_target_request(),
                Err(e) => e == ProtocolError::NotConnected && self@ == SessionState::Disconnected,
            },
    {
        if self.is_connected() {
            Ok(codec::encode_reset_target())
        } else {
            Err(ProtocolError::NotConnected)
        }
    }

    /// Interpret the transport's outcome of a ResetTarget exchange: the
    /// status byte and the device-reset-executed flag.
    pub fn reset_target_finish(&self, outcome: Result<Vec<u8>, TransportError>) -> (r: Result<
        (u8, u8),
        DapError,
    >)
        ensures
            match outcome {
                Err(t) => r == Err::<(u8, u8), DapError>(DapError::Transport(t)),
                Ok(resp) => match codec::spec_frame_check(resp@, 0x0a, 3) {
                    None => r == Ok::<(u8, u8), DapError>((resp@[1], resp@[2])),
                    Some(p) => r == Err::<(u8, u8), DapError>(DapError::Protocol(p)),
                },
            },
    {
        match outcome {
            Err(t) => Err(DapError::Transport(t)),
            Ok(resp) => match codec::decode_reset_target(&resp) {
                Ok(p) => Ok(p),
                Err(p) => Err(DapError::Protocol(p)),
            },
        }
    }
}

/// Idempotence of connect: a second successful connect exchange leaves
/// the session in the same `Connected` state the first one did, from any
/// starting state.
pub proof fn lemma_connect_idempotent(s: SessionState)
    ensures
        spec_connect_step(spec_connect_step(s, true), true) == spec_connect_step(s, true),
{
}

} // verus!
