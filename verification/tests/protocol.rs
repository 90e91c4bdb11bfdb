use cmsis_dap::codec::{
    decode_connect, decode_info, decode_jtag_sequence, decode_reset_target, decode_swj_pins,
    encode_jtag_sequence, encode_swj_pins, encode_swj_sequence,
};
use cmsis_dap::command::CommandId;
use cmsis_dap::errors::{DapError, ProtocolError, TransportError};
use cmsis_dap::pins::PinMask;
use cmsis_dap::sequence::{
    jtag_reset_segments, move_to_shift_dr_segments, pack_segments, unpack_segments,
    SequenceSegment,
};
use cmsis_dap::session::ProbeSession;

fn seg(bit_count: u8, tms: bool, capture: bool, data: Vec<u8>) -> SequenceSegment {
    SequenceSegment::new(bit_count, tms, capture, data).expect("segment should be well formed")
}

#[test]
fn pin_mask_round_trip_every_byte() {
    for b in 0u16..=255 {
        let m = PinMask::from_byte(b as u8);
        assert_eq!(PinMask::from_byte(m.to_byte()), m);
    }
}

#[test]
fn pin_mask_union_and_accessors() {
    let m = PinMask::n_reset().union(PinMask::tdi());
    assert_eq!(m.to_byte(), 0x84);
    assert!(m.has_n_reset());
    assert!(m.has_tdi());
    assert!(!m.has_swclk_tck());
    assert!(!m.has_swdio_tms());
    assert!(!m.has_tdo());
    assert!(!m.has_n_trst());
    let i = m.intersect(PinMask::tdi());
    assert_eq!(i.to_byte(), 0x04);
    assert_eq!(PinMask::empty().to_byte(), 0x00);
}

#[test]
fn pin_mask_from_byte_clears_unused_bits() {
    assert_eq!(PinMask::from_byte(0xff).to_byte(), 0xaf);
    assert_eq!(PinMask::from_byte(0x50).to_byte(), 0x00);
}

#[test]
fn command_id_byte_round_trip() {
    let all = [
        (CommandId::Info, 0x00u8),
        (CommandId::HostStatus, 0x01),
        (CommandId::Connect, 0x02),
        (CommandId::Delay, 0x09),
        (CommandId::ResetTarget, 0x0a),
        (CommandId::SwjPins, 0x10),
        (CommandId::SwjClock, 0x11),
        (CommandId::SwjSequence, 0x12),
        (CommandId::SwdConfigure, 0x13),
        (CommandId::SwdSequence, 0x1d),
        (CommandId::JtagSequence, 0x14),
        (CommandId::JtagConfigure, 0x15),
        (CommandId::JtagIdcode, 0x16),
    ];
    for (id, byte) in all {
        assert_eq!(id.to_byte(), byte);
        assert_eq!(CommandId::from_byte(byte), Some(id));
    }
    assert_eq!(CommandId::from_byte(0x03), None);
    assert_eq!(CommandId::from_byte(0xff), None);
}

#[test]
fn pack_unpack_round_trip() {
    let segments = vec![
        seg(5, false, false, vec![0x15]),
        seg(64, true, false, vec![0xde, 0xad, 0xbe, 0xef, 0x01, 0x02, 0x03, 0x04]),
        seg(12, false, true, vec![0xab, 0x05]),
    ];
    let packed = pack_segments(&segments);
    let unpacked = unpack_segments(&packed).expect("packed stream must parse");
    assert_eq!(unpacked, segments);
}

#[test]
fn unpack_masks_ignored_high_bits() {
    let parsed = unpack_segments(&vec![0x01, 0xff]).expect("stream must parse");
    assert_eq!(parsed, vec![seg(1, false, false, vec![0x01])]);
}

#[test]
fn unpack_truncated_stream_is_malformed() {
    assert_eq!(
        unpack_segments(&vec![0xc0, 0x01]),
        Err(ProtocolError::MalformedResponse)
    );
}

#[test]
fn info_byte_boundaries() {
    assert_eq!(seg(64, false, false, vec![0x00; 8]).info_byte(), 0x00);
    let data63 = vec![0xff, 0xff, 0xff, 0xff, 0xff, 0xff, 0xff, 0x7f];
    assert_eq!(seg(63, false, false, data63).info_byte(), 63);
    assert_eq!(seg(64, true, false, vec![0x00; 8]).info_byte(), 0x40);
    assert_eq!(seg(64, true, true, vec![0x00; 8]).info_byte(), 0xc0);
    assert_eq!(seg(1, false, true, vec![0x01]).info_byte(), 0x81);
}

#[test]
fn jtag_sequence_accepts_255_segments_rejects_256() {
    let mut segments = Vec::new();
    for _ in 0..255 {
        segments.push(seg(1, false, false, vec![0x01]));
    }
    let frame = encode_jtag_sequence(&segments).expect("255 segments must be accepted");
    assert_eq!(frame.len(), 512);
    assert_eq!(frame[0], 0x14);
    assert_eq!(frame[1], 255);

    segments.push(seg(1, false, false, vec![0x01]));
    assert_eq!(
        encode_jtag_sequence(&segments),
        Err(ProtocolError::SegmentCountOverflow)
    );
}

#[test]
fn jtag_sequence_rejects_oversized_frame() {
    let mut segments = Vec::new();
    for _ in 0..100 {
        segments.push(seg(64, false, false, vec![0xff; 8]));
    }
    assert_eq!(
        encode_jtag_sequence(&segments),
        Err(ProtocolError::SegmentCountOverflow)
    );
}

#[test]
fn echo_mismatch_never_decodes() {
    assert_eq!(
        decode_connect(&vec![0x03, 0x02]),
        Err(ProtocolError::UnexpectedCommandEcho)
    );
    assert_eq!(
        decode_swj_pins(&vec![0x11, 0x00]),
        Err(ProtocolError::UnexpectedCommandEcho)
    );
}

#[test]
fn malformed_lengths_are_rejected() {
    assert_eq!(decode_connect(&vec![]), Err(ProtocolError::MalformedResponse));
    assert_eq!(
        decode_connect(&vec![0x02]),
        Err(ProtocolError::MalformedResponse)
    );
    assert_eq!(
        decode_connect(&vec![0x02, 0x02, 0x00]),
        Err(ProtocolError::MalformedResponse)
    );
    assert_eq!(decode_connect(&vec![0x02, 0x02]), Ok(0x02));
}

#[test]
fn swj_pins_reset_pulse_frame() {
    let pin = PinMask::n_reset();
    let frame = encode_swj_pins(pin, pin, 0);
    assert_eq!(frame, vec![0x10, 0x80, 0x80, 0x00, 0x00, 0x00, 0x00]);
}

#[test]
fn swj_pins_wait_time_is_little_endian() {
    let frame = encode_swj_pins(PinMask::empty(), PinMask::empty(), 0x0102_0304);
    assert_eq!(frame, vec![0x10, 0x00, 0x00, 0x04, 0x03, 0x02, 0x01]);
}

#[test]
fn swj_pins_response_decodes_pin_state() {
    let state = decode_swj_pins(&vec![0x10, 0x80]).expect("valid response");
    assert_eq!(state, PinMask::n_reset());
}

#[test]
fn jtag_reset_scenario_frame() {
    let segments = vec![seg(64, true, false, vec![0xff; 8])];
    let frame = encode_jtag_sequence(&segments).expect("one segment fits");
    assert_eq!(
        frame,
        vec![0x14, 0x01, 0x40, 0xff, 0xff, 0xff, 0xff, 0xff, 0xff, 0xff, 0xff]
    );
}

#[test]
fn jtag_capture_scenario_frame() {
    let segments = vec![seg(64, true, true, vec![0xff; 8])];
    let frame = encode_jtag_sequence(&segments).expect("one segment fits");
    assert_eq!(
        frame,
        vec![0x14, 0x01, 0xc0, 0xff, 0xff, 0xff, 0xff, 0xff, 0xff, 0xff, 0xff]
    );
}

#[test]
fn connect_twice_is_idempotent() {
    let mut session = ProbeSession::new();
    assert!(!session.is_connected());
    assert_eq!(session.connect_finish(Ok(vec![0x02, 0x02])), Ok(0x02));
    assert!(session.is_connected());
    assert_eq!(session.connect_finish(Ok(vec![0x02, 0x02])), Ok(0x02));
    assert!(session.is_connected());
}

#[test]
fn transport_timeout_keeps_session_state() {
    let mut session = ProbeSession::new();
    assert_eq!(
        session.connect_finish(Err(TransportError::Timeout)),
        Err(DapError::Transport(TransportError::Timeout))
    );
    assert!(!session.is_connected());

    session.connect_finish(Ok(vec![0x02, 0x02])).expect("connect");
    assert_eq!(
        session.swj_pins_finish(Err(TransportError::Timeout)),
        Err(DapError::Transport(TransportError::Timeout))
    );
    assert!(session.is_connected());
    assert_eq!(
        session.connect_finish(Err(TransportError::Timeout)),
        Err(DapError::Transport(TransportError::Timeout))
    );
    assert!(session.is_connected());
}

#[test]
fn protocol_error_keeps_session_disconnected() {
    let mut session = ProbeSession::new();
    assert_eq!(
        session.connect_finish(Ok(vec![0x03, 0x02])),
        Err(DapError::Protocol(ProtocolError::UnexpectedCommandEcho))
    );
    assert!(!session.is_connected());
}

#[test]
fn reset_target_requires_connection() {
    let mut session = ProbeSession::new();
    assert_eq!(
        session.reset_target_request(),
        Err(ProtocolError::NotConnected)
    );
    session.connect_finish(Ok(vec![0x02, 0x01])).expect("connect");
    assert_eq!(session.reset_target_request(), Ok(vec![0x0a]));
    assert_eq!(
        session.reset_target_finish(Ok(vec![0x0a, 0x00, 0x01])),
        Ok((0x00, 0x01))
    );
    assert_eq!(
        decode_reset_target(&vec![0x0a, 0x00]),
        Err(ProtocolError::MalformedResponse)
    );
    session.disconnect();
    assert!(!session.is_connected());
}

#[test]
fn swj_sequence_frame_and_size_bound() {
    let data = vec![0xaa; 8];
    let frame = encode_swj_sequence(64, &data).expect("8 data bytes fit");
    let mut expected = vec![0x12, 64];
    expected.extend_from_slice(&data);
    assert_eq!(frame, expected);

    let too_big = vec![0x00; 511];
    assert_eq!(
        encode_swj_sequence(0, &too_big),
        Err(ProtocolError::FrameTooLarge)
    );
    let largest = vec![0x00; 510];
    assert!(encode_swj_sequence(0, &largest).is_ok());
}

#[test]
fn info_response_decodes_identification_data() {
    assert_eq!(decode_info(&vec![0x00, 0x02, 0x31, 0x32]), Ok(vec![0x31, 0x32]));
    assert_eq!(
        decode_info(&vec![0x00, 0x03, 0x31, 0x32]),
        Err(ProtocolError::MalformedResponse)
    );
    assert_eq!(
        decode_info(&vec![0x01, 0x00]),
        Err(ProtocolError::UnexpectedCommandEcho)
    );
    let session = ProbeSession::new();
    assert_eq!(
        session.info_finish(Ok(vec![0x00, 0x01, 0x42])),
        Ok(vec![0x42])
    );
}

#[test]
fn jtag_response_splits_captured_chunks() {
    let segments = vec![
        seg(8, false, true, vec![0xaa]),
        seg(4, true, false, vec![0x0f]),
        seg(16, false, true, vec![0x34, 0x12]),
    ];
    let chunks = decode_jtag_sequence(&segments, &vec![0x14, 0x55, 0x66, 0x77])
        .expect("response length matches the captured segments");
    assert_eq!(chunks, vec![vec![0x55], vec![0x66, 0x77]]);

    assert_eq!(
        decode_jtag_sequence(&segments, &vec![0x14, 0x55]),
        Err(ProtocolError::MalformedResponse)
    );
    let session = ProbeSession::new();
    assert_eq!(
        session.jtag_sequence_finish(&segments, Ok(vec![0x14, 0x55, 0x66, 0x77])),
        Ok(vec![vec![0x55], vec![0x66, 0x77]])
    );
}

#[test]
fn canned_sequences_match_the_protocol() {
    let reset = jtag_reset_segments();
    assert_eq!(reset, vec![seg(64, true, false, vec![0xff; 8])]);

    let walk = move_to_shift_dr_segments();
    assert_eq!(
        walk,
        vec![
            seg(1, false, false, vec![0x01]),
            seg(1, true, false, vec![0x01]),
            seg(1, false, false, vec![0x01]),
            seg(1, false, false, vec![0x01]),
        ]
    );
}

#[test]
fn segment_constructor_rejects_bad_shapes() {
    assert!(SequenceSegment::new(0, false, false, vec![]).is_none());
    assert!(SequenceSegment::new(65, false, false, vec![0x00; 9]).is_none());
    assert!(SequenceSegment::new(1, false, false, vec![0x02]).is_none());
    assert!(SequenceSegment::new(1, false, false, vec![0x01, 0x00]).is_none());
    assert!(SequenceSegment::new(9, false, false, vec![0xff]).is_none());
    assert!(SequenceSegment::new(9, false, false, vec![0xff, 0x01]).is_some());
    assert!(seg(16, true, true, vec![0xcd, 0xab]).is_wf());
}
