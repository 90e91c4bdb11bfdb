//! The command codec.
//!
//! One encoder and one decoder per protocol operation. An encoder builds
//! the exact request frame the protocol mandates — command byte first,
//! then the operation's fields in order, multi-byte fields little-endian
//! — and rejects a frame that would not fit in one transport packet. A
//! decoder validates, in order, that the response is non-empty, that its
//! first byte echoes the command that was sent, and that its length is
//! the one the operation mandates, before extracting any result field.

use vstd::prelude::*;

use crate::errors::ProtocolError;
use crate::pins::PinMask;
use crate::sequence::{
    all_wf, models, spec_bytes_for_bits, spec_pack, SegModel, SequenceSegment, bytes_for_bits,
    pack_segments,
};

verus! {

/// The three header checks every decoder runs, in order: non-empty,
/// command echo, exact length. `None` means the header is acceptable.
pub open spec fn spec_frame_check(resp: Seq<u8>, cmd: u8, expected_len: int) -> Option<
    ProtocolError,
> {
    if resp.len() == 0 {
        Some(ProtocolError::MalformedResponse)
    } else if resp[0] != cmd {
        Some(ProtocolError::UnexpectedCommandEcho)
    } else if resp.len() != expected_len {
        Some(ProtocolError::MalformedResponse)
    } else {
        None
    }
}

/// Run the three header checks of `spec_frame_check`.
fn frame_check(resp: &Vec<u8>, cmd: u8, expected_len: usize) -> (r: Option<ProtocolError>)
    ensures
        r == spec_frame_check(resp@, cmd, expected_len as int),
{
    if resp.len() == 0 {
        Some(ProtocolError::MalformedResponse)
    } else if resp[0] != cmd {
        Some(ProtocolError::UnexpectedCommandEcho)
    } else if resp.len() != expected_len {
        Some(ProtocolError::MalformedResponse)
    } else {
        None
    }
}

/// The request frame of an Info exchange.
pub open spec fn spec_info_request(info_id: u8) -> Seq<u8> {
    seq![0x00u8, info_id]
}

/// The request frame of a Connect exchange.
pub open spec fn spec_connect_request(mode: u8) -> Seq<u8> {
    seq![0x02u8, mode]
}

/// The request frame of a ResetTarget exchange.
pub open spec fn spec_reset_target_request() -> Seq<u8> {
    seq![0x0au8]
}

/// The request frame of an SWJ_Pins exchange: output byte, select byte,
/// then the wait time in microseconds as four little-endian bytes.
pub open spec fn spec_swj_pins_request(output: u8, select: u8, wait_us: u32) -> Seq<u8> {
    seq![
        0x10u8,
        output,
        select,
        (wait_us & 0xff) as u8,
        ((wait_us >> 8) & 0xff) as u8,
        ((wait_us >> 16) & 0xff) as u8,
        ((wait_us >> 24) & 0xff) as u8,
    ]
}

/// The request frame of an SWJ_Sequence exchange: the raw bit count,
/// then the data bytes.
pub open spec fn spec_swj_sequence_request(bit_count: u8, data: Seq<u8>) -> Seq<u8> {
    seq![0x12u8, bit_count] + data
}

/// The request frame of a JTAG_Sequence exchange: the segment count,
/// then each segment's info byte and data in list order.
pub open spec fn spec_jtag_sequence_request(ms: Seq<SegModel>) -> Seq<u8> {
    seq![0x14u8, ms.len() as u8] + spec_pack(ms)
}

/// Build an Info request.
pub fn encode_info(info_id: u8) -> (r: Vec<u8>)
    ensures
        r@ == spec_info_request(info_id),
{
    let mut f: Vec<u8> = Vec::new();
    f.push(0x00);
    f.push(info_id);
    proof {
        assert(f@ =~= spec_info_request(info_id));
    }
    f
}

/// Build a Connect request.
pub fn encode_connect(mode: u8) -> (r: Vec<u8>)
    ensures
        r@ == spec_connect_request(mode),
{
    let mut f: Vec<u8> = Vec::new();
    f.push(0x02);
    f.push(mode);
    proof {
        assert(f@ =~= spec_connect_request(mode));
    }
    f
}

/// Build a ResetTarget request.
pub fn encode_reset_target() -> (r: Vec<u8>)
    ensures
        r@ == spec_reset_target_request(),
{
    let mut f: Vec<u8> = Vec::new();
    f.push(0x0a);
    proof {
        assert(f@ =~= spec_reset_target_request());
    }
    f
}

/// Build an SWJ_Pins request: drive the lines of `output` selected by
/// `select`, then wait `wait_us` microseconds before reading back.
pub fn encode_swj_pins(output: PinMask, select: PinMask, wait_us: u32) -> (r: Vec<u8>)
    ensures
        r@ == spec_swj_pins_request(output@, select@, wait_us),
{
    proof {
        assert(wait_us & 0xff <= 0xff && (wait_us >> 8) & 0xff <= 0xff && (wait_us >> 16) & 0xff
            <= 0xff && (wait_us >> 24) & 0xff <= 0xff) by (bit_vector);
    }
    let mut f: Vec<u8> = Vec::new();
    f.push(0x10);
    f.push(output.to_byte());
    f.push(select.to_byte());
    f.push((wait_us & 0xff) as u8);
    f.push(((wait_us >> 8) & 0xff) as u8);
    f.push(((wait_us >> 16) & 0xff) as u8);
    f.push(((wait_us >> 24) & 0xff) as u8);
    proof {
        assert(f@ =~= spec_swj_pins_request(output@, select@, wait_us));
    }
    f
}

/// Build an SWJ_Sequence request, rejecting one that would not fit in a
/// transport packet.
#[verifier::loop_isolation(false)]
pub fn encode_swj_sequence(bit_count: u8, data: &Vec<u8>) -> (r: Result<Vec<u8>, ProtocolError>)
    ensures
        match r {
            Ok(f) => 2 + data@.len() <= crate::MAX_PACKET_SIZE && f@ == spec_swj_sequence_request(
                bit_count,
                data@,
            ),
            Err(e) => e == ProtocolError::FrameTooLarge && 2 + data@.len()
                > crate::MAX_PACKET_SIZE,
        },
{
    if data.len() > crate::MAX_PACKET_SIZE - 2 {
        return Err(ProtocolError::FrameTooLarge);
    }
    let mut f: Vec<u8> = Vec::new();
    f.push(0x12);
    f.push(bit_count);
    let mut j: usize = 0;
    while j < data.len()
        invariant
            0 <= j <= data@.len(),
            f@ == seq![0x12u8, bit_count] + data@.take(j as int),
        decreases data@.len() - j,
    {
        f.push(data[j]);
        proof {
            assert(f@ =~= seq![0x12u8, bit_count] + data@.take(j as int + 1));
        }
        j = j + 1;
    }
    proof {
        assert(data@.take(data@.len() as int) =~= data@);
    }
    Ok(f)
}

/// Build a JTAG_Sequence request, rejecting a list of more than 255
/// segments and a frame that would not fit in a transport packet.
pub fn encode_jtag_sequence(segs: &Vec<SequenceSegment>) -> (r: Result<Vec<u8>, ProtocolError>)
    requires
        all_wf(segs@),
    ensures
        match r {
            Ok(f) => segs@.len() <= 255 && 2 + spec_pack(models(segs@)).len()
                <= crate::MAX_PACKET_SIZE && f@ == spec_jtag_sequence_request(models(segs@)),
            Err(e) => e == ProtocolError::SegmentCountOverflow && (segs@.len() > 255 || 2
                + spec_pack(models(segs@)).len() > crate::MAX_PACKET_SIZE),
        },
{
    if segs.len() > 255 {
        return Err(ProtocolError::SegmentCountOverflow);
    }
    let mut packed = pack_segments(segs);
    if packed.len() > crate::MAX_PACKET_SIZE - 2 {
        return Err(ProtocolError::SegmentCountOverflow);
    }
    let count: u8 = segs.len() as u8;
    let mut f: Vec<u8> = Vec::new();
    f.push(0x14);
    f.push(count);
    f.append(&mut packed);
    proof {
        assert(models(segs@).len() == segs@.len());
        assert(f@ =~= spec_jtag_sequence_request(models(segs@)));
    }
    Ok(f)
}

/// What an Info response decodes to: the identification data after the
/// command echo and the length byte, which must match the total length.
pub open spec fn spec_decode_info(resp: Seq<u8>) -> Result<Seq<u8>, ProtocolError> {
    if resp.len() == 0 {
        Err(ProtocolError::MalformedResponse)
    } else if resp[0] != 0x00 {
        Err(ProtocolError::UnexpectedCommandEcho)
    } else if resp.len() < 2 || resp.len() != 2 + resp[1] {
        Err(ProtocolError::MalformedResponse)
    } else {
        Ok(resp.skip(2))
    }
}

/// Decode an Info response into its identification data.
#[verifier::loop_isolation(false)]
pub fn decode_info(resp: &Vec<u8>) -> (r: Result<Vec<u8>, ProtocolError>)
    ensures
        match r {
            Ok(d) => spec_decode_info(resp@) == Ok::<Seq<u8>, ProtocolError>(d@),
            Err(e) => spec_decode_info(resp@) == Err::<Seq<u8>, ProtocolError>(e),
        },
{
    if resp.len() == 0 {
        return Err(ProtocolError::MalformedResponse);
    }
    if resp[0] != 0x00 {
        return Err(ProtocolError::UnexpectedCommandEcho);
    }
    if resp.len() < 2 || resp.len() - 2 != resp[1] as usize {
        return Err(ProtocolError::MalformedResponse);
    }
    let mut d: Vec<u8> = Vec::new();
    let mut j: usize = 2;
    while j < resp.len()
        invariant
            2 <= j <= resp@.len(),
            d@ == resp@.subrange(2, j as int),
        decreases resp@.len() - j,
    {
        d.push(resp[j]);
        proof {
            assert(d@ =~= resp@.subrange(2, j as int + 1));
        }
        j = j + 1;
    }
    proof {
        assert(d@ =~= resp@.skip(2));
    }
    Ok(d)
}

/// Decode a Connect response into the echoed mode byte.
pub fn decode_connect(resp: &Vec<u8>) -> (r: Result<u8, ProtocolError>)
    ensures
        match r {
            Ok(mode) => spec_frame_check(resp@, 0x02, 2) is None && mode == resp@[1],
            Err(e) => spec_frame_check(resp@, 0x02, 2) == Some(e),
        },
{
    match frame_check(resp, 0x02, 2) {
        Some(e) => Err(e),
        None => Ok(resp[1]),
    }
}

/// Decode an SWJ_Pins response into the post-change pin state.
pub fn decode_swj_pins(resp: &Vec<u8>) -> (r: Result<PinMask, ProtocolError>)
    ensures
        match r {
            Ok(m) => spec_frame_check(resp@, 0x10, 2) is None && m@ == PinMask::spec_from_byte(
                resp@[1],
            ) && m.wf(),
            Err(e) => spec_frame_check(resp@, 0x10, 2) == Some(e),
        },
{
    match frame_check(resp, 0x10, 2) {
        Some(e) => Err(e),
        None => Ok(PinMask::from_byte(resp[1])),
    }
}

/// Decode an SWJ_Sequence response, which carries no result fields.
pub fn decode_swj_sequence(resp: &Vec<u8>) -> (r: Result<(), ProtocolError>)
    ensures
        match r {
            Ok(u) => spec_frame_check(resp@, 0x12, 1) is None,
            Err(e) => spec_frame_check(resp@, 0x12, 1) == Some(e),
        },
{
    match frame_check(resp, 0x12, 1) {
        Some(e) => Err(e),
        None => Ok(()),
    }
}

/// The number of data bytes a probe returns for a segment list: the
/// bytes of every capture-enabled segment, in list order.
pub open spec fn spec_captured_len(ms: Seq<SegModel>) -> int
    decreases ms.len(),
{
    if ms.len() == 0 {
        0
    } else {
        (if ms[0].capture {
            spec_bytes_for_bits(ms[0].bit_count)
        } else {
            0
        }) + spec_captured_len(ms.skip(1))
    }
}

/// The captured data of a response split into one chunk per
/// capture-enabled segment, in list order; segments without capture
/// contribute no chunk.
pub open spec fn spec_split_captured(ms: Seq<SegModel>, data: Seq<u8>) -> Seq<Seq<u8>>
    decreases ms.len(),
{
    if ms.len() == 0 {
        Seq::empty()
    } else {
        let nb = if ms[0].capture {
            spec_bytes_for_bits(ms[0].bit_count)
        } else {
            0
        };
        let rest = spec_split_captured(ms.skip(1), data.skip(nb));
        if ms[0].capture {
            seq![data.take(nb)] + rest
        } else {
            rest
        }
    }
}

/// The byte sequences a list of chunk buffers holds, in order.
pub open spec fn chunk_models(cs: Seq<Vec<u8>>) -> Seq<Seq<u8>> {
    cs.map_values(|c: Vec<u8>| c@)
}

/// The captured length of a list never goes negative.
proof fn lemma_captured_len_nonneg(ms: Seq<SegModel>)
    ensures
        spec_captured_len(ms) >= 0,
    decreases ms.len(),
{
    if ms.len() != 0 {
        lemma_captured_len_nonneg(ms.skip(1));
    }
}

/// The captured length distributes over list concatenation.
proof fn lemma_captured_len_append(a: Seq<SegModel>, b: Seq<SegModel>)
    ensures
        spec_captured_len(a + b) == spec_captured_len(a) + spec_captured_len(b),
    decreases a.len(),
{
    if a.len() == 0 {
        assert(a + b =~= b);
    } else {
        assert((a + b)[0] == a[0]);
        assert((a + b).skip(1) =~= a.skip(1) + b);
        lemma_captured_len_append(a.skip(1), b);
    }
}

/// Count the response data bytes a segment list makes the probe return.
#[verifier::loop_isolation(false)]
pub fn captured_len(segs: &Vec<SequenceSegment>) -> (n: usize)
    requires
        all_wf(segs@),
        segs@.len() <= 255,
    ensures
        n == spec_captured_len(models(segs@)),
        n <= 8 * segs@.len(),
{
    let ghost ms = models(segs@);
    let mut total: usize = 0;
    let mut i: usize = 0;
    proof {
        assert(ms.take(0) =~= Seq::<SegModel>::empty());
    }
    while i < segs.len()
        invariant
            0 <= i <= segs@.len(),
            total == spec_captured_len(ms.take(i as int)),
            total <= 8 * i,
        decreases segs@.len() - i,
    {
        let s = &segs[i];
        assert(s@ == ms[i as int]);
        assert(s@.wf());
        if s.capture {
            let nb = bytes_for_bits(s.bit_count);
            assert(nb <= 8);
            total = total + nb;
        }
        proof {
            assert(ms.take(i as int + 1) =~= ms.take(i as int) + seq![ms[i as int]]);
            lemma_captured_len_append(ms.take(i as int), seq![ms[i as int]]);
            assert(seq![ms[i as int]].skip(1) =~= Seq::<SegModel>::empty());
            assert(spec_captured_len(Seq::<SegModel>::empty()) == 0);
            assert(spec_captured_len(seq![ms[i as int]]) == (if ms[i as int].capture {
                spec_bytes_for_bits(ms[i as int].bit_count)
            } else {
                0
            }));
        }
        i = i + 1;
    }
    proof {
        assert(ms.take(segs@.len() as int) =~= ms);
    }
    total
}

/// Decode a JTAG_Sequence response against the segment list that was
/// sent: after the header checks, the response's data bytes are split
/// into one chunk per capture-enabled segment, in list order.
#[verifier::loop_isolation(false)]
pub fn decode_jtag_sequence(segs: &Vec<SequenceSegment>, resp: &Vec<u8>) -> (r: Result<
    Vec<Vec<u8>>,
    ProtocolError,
>)
    requires
        all_wf(segs@),
        segs@.len() <= 255,
    ensures
        match r {
            Ok(chunks) => spec_frame_check(resp@, 0x14, 1 + spec_captured_len(models(segs@)))
                is None && chunk_models(chunks@) == spec_split_captured(
                models(segs@),
                resp@.skip(1),
            ),
            Err(e) => spec_frame_check(resp@, 0x14, 1 + spec_captured_len(models(segs@))) == Some(
                e,
            ),
        },
{
    let ghost ms = models(segs@);
    let expected = captured_len(segs);
    match frame_check(resp, 0x14, 1 + expected) {
        Some(e) => {
            return Err(e);
        },
        None => {},
    }
    let ghost data = resp@.skip(1);
    let mut chunks: Vec<Vec<u8>> = Vec::new();
    let mut off: usize = 1;
    let mut i: usize = 0;
    proof {
        assert(ms.take(0) =~= Seq::<SegModel>::empty());
        assert(spec_captured_len(Seq::<SegModel>::empty()) == 0);
        assert(ms.skip(0) =~= ms);
        assert(data.skip(0) =~= data);
        assert(chunk_models(chunks@) + spec_split_captured(ms, data) =~= spec_split_captured(
            ms,
            data,
        ));
    }
    while i < segs.len()
        invariant
            0 <= i <= segs@.len(),
            1 <= off <= resp@.len(),
            off - 1 == spec_captured_len(ms.take(i as int)),
            resp@.len() == 1 + spec_captured_len(ms),
            spec_split_captured(ms, data) == chunk_models(chunks@) + spec_split_captured(
                ms.skip(i as int),
                data.skip(off as int - 1),
            ),
        decreases segs@.len() - i,
    {
        let s = &segs[i];
        assert(s@ == ms[i as int]);
        assert(s@.wf());
        let ghost tailm = ms.skip(i as int);
        let ghost taild = data.skip(off as int - 1);
        proof {
            assert(tailm[0] == ms[i as int]);
            assert(tailm.skip(1) =~= ms.skip(i as int + 1));
            assert(ms.take(i as int) + ms.skip(i as int) =~= ms);
            lemma_captured_len_append(ms.take(i as int), ms.skip(i as int));
            lemma_captured_len_nonneg(ms.skip(i as int + 1));
            assert(ms.take(i as int + 1) =~= ms.take(i as int) + seq![ms[i as int]]);
            lemma_captured_len_append(ms.take(i as int), seq![ms[i as int]]);
            assert(seq![ms[i as int]].skip(1) =~= Seq::<SegModel>::empty());
            assert(spec_captured_len(Seq::<SegModel>::empty()) == 0);
        }
        if s.capture {
            let nb = bytes_for_bits(s.bit_count);
            assert(off + nb <= resp@.len());
            let mut chunk: Vec<u8> = Vec::new();
            let mut j: usize = 0;
            while j < nb
                invariant
                    0 <= j <= nb,
                    off + nb <= resp@.len(),
                    chunk@ == resp@.subrange(off as int, off as int + j as int),
                decreases nb - j,
            {
                chunk.push(resp[off + j]);
                proof {
                    assert(chunk@ =~= resp@.subrange(off as int, off as int + j as int + 1));
                }
                j = j + 1;
            }
            let ghost chunks_old = chunks@;
            chunks.push(chunk);
            proof {
                assert(taild.take(nb as int) =~= resp@.subrange(
                    off as int,
                    off as int + nb as int,
                ));
                assert(taild.skip(nb as int) =~= data.skip(off as int - 1 + nb as int));
                assert(spec_split_captured(tailm, taild) == seq![taild.take(nb as int)]
                    + spec_split_captured(tailm.skip(1), taild.skip(nb as int)));
                assert(chunk_models(chunks@) =~= chunk_models(chunks_old) + seq![chunk@]);
                assert(chunk_models(chunks_old) + (seq![chunk@] + spec_split_captured(
                    ms.skip(i as int + 1),
                    data.skip(off as int - 1 + nb as int),
                )) =~= chunk_models(chunks@) + spec_split_captured(
                    ms.skip(i as int + 1),
                    data.skip(off as int - 1 + nb as int),
                ));
            }
            off = off + nb;
        } else {
            proof {
                assert(taild.skip(0) =~= taild);
                assert(spec_split_captured(tailm, taild) == spec_split_captured(
                    tailm.skip(1),
                    taild.skip(0),
                ));
            }
        }
        i = i + 1;
    }
    proof {
        assert(ms.skip(segs@.len() as int) =~= Seq::<SegModel>::empty());
        assert(spec_split_captured(Seq::<SegModel>::empty(), data.skip(off as int - 1))
            =~= Seq::<Seq<u8>>::empty());
        assert(chunk_models(chunks@) + Seq::<Seq<u8>>::empty() =~= chunk_models(chunks@));
        assert(ms.take(segs@.len() as int) =~= ms);
    }
    Ok(chunks)
}

/// Decode a ResetTarget response into its status byte and its
/// device-reset-executed flag.
pub fn decode_reset_target(resp: &Vec<u8>) -> (r: Result<(u8, u8), ProtocolError>)
    ensures
        match r {
            Ok(p) => spec_frame_check(resp@, 0x0a, 3) is None && p.0 == resp@[1] && p.1
                == resp@[2],
            Err(e) => spec_frame_check(resp@, 0x0a, 3) == Some(e),
        },
{
    match frame_check(resp, 0x0a, 3) {
        Some(e) => Err(e),
        None => Ok((resp[1], resp[2])),
    }
}

} // verus!
