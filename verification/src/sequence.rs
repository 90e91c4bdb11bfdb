//! The bit-sequence packer.
//!
//! JTAG sequence commands carry an ordered list of segments, each an
//! irregular bit-length transfer: a bit count of 1 to 64 (64 is encoded as
//! `0` on the wire), a TMS level, a capture-enable flag, and
//! `ceil(bit_count / 8)` data bytes whose unused high bits in the final
//! byte must be zero on write and are ignored on read. This module packs
//! such a list into the wire layout, parses the layout back, and proves
//! the two are exact inverses on well-formed segments.

use vstd::prelude::*;

use crate::errors::ProtocolError;

verus! {

/// The mathematical model of one sequence segment.
#[verifier::ext_equal]
pub ghost struct SegModel {
    /// Number of bits to transfer, 1 to 64.
    pub bit_count: u8,
    /// Level of TMS (JTAG) or the driven line while the bits are clocked.
    pub tms: bool,
    /// Whether the probe captures and returns the bits seen on TDO.
    pub capture: bool,
    /// The transfer data, `ceil(bit_count / 8)` bytes, low bits first.
    pub data: Seq<u8>,
}

/// Bytes needed to carry a given number of bits.
pub open spec fn spec_bytes_for_bits(bit_count: u8) -> int {
    (bit_count + 7) / 8
}

/// The mask of the significant bits of a segment's final data byte, from
/// the remainder `bit_count % 8` (`0` means the whole byte is used).
pub open spec fn spec_low_mask(k: u8) -> u8 {
    if k == 0 {
        0xff
    } else if k == 1 {
        0x01
    } else if k == 2 {
        0x03
    } else if k == 3 {
        0x07
    } else if k == 4 {
        0x0f
    } else if k == 5 {
        0x1f
    } else if k == 6 {
        0x3f
    } else {
        0x7f
    }
}

impl SegModel {
    /// A segment is well formed when its bit count is in range, its data
    /// holds exactly the bytes the bit count needs, and the unused high
    /// bits of the final byte are zero.
    pub open spec fn wf(self) -> bool {
        &&& 1 <= self.bit_count <= 64
        &&& self.data.len() == spec_bytes_for_bits(self.bit_count)
        &&& self.data.last() & spec_low_mask(self.bit_count % 8) == self.data.last()
    }

    /// The segment's leading info byte: the literal bit count for 1 to 63
    /// and `0` for 64, TMS level in bit 6, capture enable in bit 7.
    pub open spec fn spec_info_byte(self) -> u8 {
        (if self.bit_count == 64 {
            0u8
        } else {
            self.bit_count
        }) | (if self.tms {
            0x40u8
        } else {
            0u8
        }) | (if self.capture {
            0x80u8
        } else {
            0u8
        })
    }
}

/// The bit count an info byte declares.
pub open spec fn spec_bit_count_of_info(info: u8) -> u8 {
    if info & 0x3f == 0 {
        64u8
    } else {
        info & 0x3f
    }
}

/// The TMS level an info byte declares.
pub open spec fn spec_tms_of_info(info: u8) -> bool {
    info & 0x40 != 0
}

/// The capture flag an info byte declares.
pub open spec fn spec_capture_of_info(info: u8) -> bool {
    info & 0x80 != 0
}

/// Segment data as read off the wire: the unused high bits of the final
/// byte are cleared, the other bytes are taken as they are.
pub open spec fn spec_mask_last(bit_count: u8, data: Seq<u8>) -> Seq<u8> {
    if data.len() == 0 || bit_count % 8 == 0 {
        data
    } else {
        data.update(data.len() - 1, data.last() & spec_low_mask(bit_count % 8))
    }
}

/// The wire bytes of one segment: its info byte, then its data.
pub open spec fn spec_pack_seg(m: SegModel) -> Seq<u8> {
    seq![m.spec_info_byte()] + m.data
}

/// The wire bytes of a segment list, in list order.
pub open spec fn spec_pack(ms: Seq<SegModel>) -> Seq<u8>
    decreases ms.len(),
{
    if ms.len() == 0 {
        Seq::empty()
    } else {
        spec_pack_seg(ms[0]) + spec_pack(ms.skip(1))
    }
}

/// The segment list a byte stream parses to, or `None` if the stream is
/// truncated mid-segment.
pub open spec fn spec_unpack(b: Seq<u8>) -> Option<Seq<SegModel>>
    decreases b.len(),
{
    if b.len() == 0 {
        Some(Seq::empty())
    } else {
        let info = b[0];
        let bc = spec_bit_count_of_info(info);
        let nb = spec_bytes_for_bits(bc);
        if b.len() < 1 + nb {
            None
        } else {
            let m = SegModel {
                bit_count: bc,
                tms: spec_tms_of_info(info),
                capture: spec_capture_of_info(info),
                data: spec_mask_last(bc, b.subrange(1, 1 + nb)),
            };
            match spec_unpack(b.skip(1 + nb)) {
                Some(rest) => Some(seq![m] + rest),
                None => None,
            }
        }
    }
}

/// One irregular bit-length transfer unit of a JTAG sequence command.
#[derive(Clone, Debug, PartialEq, Eq)]
pub struct SequenceSegment {
    /// Number of bits to transfer, 1 to 64.
    pub bit_count: u8,
    /// TMS level while the bits are clocked.
    pub tms: bool,
    /// Whether the probe captures and returns the bits seen on TDO.
    pub capture: bool,
    /// The transfer data, `ceil(bit_count / 8)` bytes, low bits first.
    pub data: Vec<u8>,
}

impl View for SequenceSegment {
    type V = SegModel;

    open spec fn view(&self) -> SegModel {
        SegModel {
            bit_count: self.bit_count,
            tms: self.tms,
            capture: self.capture,
            data: self.data@,
        }
    }
}

/// The models of a list of segments, in order.
pub open spec fn models(ss: Seq<SequenceSegment>) -> Seq<SegModel> {
    ss.map_values(|s: SequenceSegment| s@)
}

/// All segments of a list are well formed.
pub open spec fn all_wf(ss: Seq<SequenceSegment>) -> bool {
    forall|i: int| 0 <= i < ss.len() ==> (#[trigger] ss[i])@.wf()
}

impl SequenceSegment {
    /// Checked constructor: `None` if the bit count is out of range, the
    /// data length does not match it, or the unused high bits of the
    /// final byte are not zero.
    pub fn new(bit_count: u8, tms: bool, capture: bool, data: Vec<u8>) -> (r: Option<
        SequenceSegment,
    >)
        ensures
            match r {
                Some(s) => {
                    &&& s@ == (SegModel { bit_count, tms, capture, data: data@ })
                    &&& s@.wf()
                },
                None => !(SegModel { bit_count, tms, capture, data: data@ }).wf(),
            },
    {
        if bit_count < 1 || bit_count > 64 {
            return None;
        }
        let nb = bytes_for_bits(bit_count);
        if data.len() != nb {
            return None;
        }
        let last = data[nb - 1];
        if last & low_mask(bit_count % 8) != last {
            return None;
        }
        Some(SequenceSegment { bit_count, tms, capture, data })
    }

    /// Whether this segment satisfies the packer's well-formedness
    /// conditions.
    pub fn is_wf(&self) -> (r: bool)
        ensures
            r == self@.wf(),
    {
        if self.bit_count < 1 || self.bit_count > 64 {
            return false;
        }
        let nb = bytes_for_bits(self.bit_count);
        if self.data.len() != nb {
            return false;
        }
        let last = self.data[nb - 1];
        last & low_mask(self.bit_count % 8) == last
    }

    /// Render this segment's leading info byte.
    pub fn info_byte(&self) -> (b: u8)
        requires
            1 <= self.bit_count <= 64,
        ensures
            b == self@.spec_info_byte(),
    {
        let code: u8 = if self.bit_count == 64 {
            0
        } else {
            self.bit_count
        };
        let mut b: u8 = code;
        if self.tms {
            b = b | 0x40;
        }
        if self.capture {
            b = b | 0x80;
        }
        proof {
            let c = code;
            assert(c | 0u8 == c && (c | 0x40u8) | 0u8 == c | 0x40u8 && (c | 0u8) | 0x80u8 == c
                | 0u8 | 0x80u8 && (c | 0x40u8) | 0x80u8 == c | 0x40u8 | 0x80u8) by (bit_vector);
        }
        b
    }
}

/// Bytes needed to carry a given number of bits.
pub fn bytes_for_bits(bit_count: u8) -> (n: usize)
    ensures
        n == spec_bytes_for_bits(bit_count),
{
    (bit_count as usize + 7) / 8
}

/// Pack a list of well-formed segments into their wire bytes, in list
/// order.
#[verifier::loop_isolation(false)]
pub fn pack_segments(segs: &Vec<SequenceSegment>) -> (r: Vec<u8>)
    requires
        all_wf(segs@),
    ensures
        r@ == spec_pack(models(segs@)),
{
    let ghost ms = models(segs@);
    let mut out: Vec<u8> = Vec::new();
    let mut i: usize = 0;
    while i < segs.len()
        invariant
            0 <= i <= segs@.len(),
            out@ == spec_pack(ms.take(i as int)),
        decreases segs@.len() - i,
    {
        let s = &segs[i];
        assert(s@ == ms[i as int]);
        assert(s@.wf());
        out.push(s.info_byte());
        let ghost mid = out@;
        let mut j: usize = 0;
        let nb = s.data.len();
        while j < nb
            invariant
                0 <= j <= nb,
                nb == s.data@.len(),
                out@ == mid + s.data@.take(j as int),
            decreases nb - j,
        {
            out.push(s.data[j]);
            proof {
                assert(out@ =~= mid + s.data@.take(j as int + 1));
            }
            j = j + 1;
        }
        proof {
            assert(s.data@.take(nb as int) =~= s.data@);
            assert(out@ =~= spec_pack(ms.take(i as int)) + spec_pack_seg(ms[i as int]));
            lemma_pack_append(ms.take(i as int), seq![ms[i as int]]);
            assert(seq![ms[i as int]].skip(1) =~= Seq::<SegModel>::empty());
            assert(spec_pack(Seq::<SegModel>::empty()) =~= Seq::<u8>::empty());
            assert(spec_pack(seq![ms[i as int]]) == spec_pack_seg(seq![ms[i as int]][0])
                + spec_pack(seq![ms[i as int]].skip(1)));
            assert(spec_pack(seq![ms[i as int]]) =~= spec_pack_seg(ms[i as int]));
            assert(ms.take(i as int) + seq![ms[i as int]] =~= ms.take(i as int + 1));
            assert(out@ =~= spec_pack(ms.take(i as int + 1)));
        }
        i = i + 1;
    }
    proof {
        assert(ms.take(segs@.len() as int) =~= ms);
    }
    out
}

/// Parse a packed byte stream back into its segment list; a stream that
/// ends mid-segment is rejected as malformed.
#[verifier::loop_isolation(false)]
pub fn unpack_segments(bytes: &Vec<u8>) -> (r: Result<Vec<SequenceSegment>, ProtocolError>)
    ensures
        match r {
            Ok(segs) => spec_unpack(bytes@) == Some(models(segs@)) && all_wf(segs@),
            Err(e) => e == ProtocolError::MalformedResponse && spec_unpack(bytes@) is None,
        },
{
    let mut out: Vec<SequenceSegment> = Vec::new();
    let mut pos: usize = 0;
    proof {
        assert(bytes@.skip(0) =~= bytes@);
        match spec_unpack(bytes@) {
            Some(rest) => {
                assert(models(out@) + rest =~= rest);
            },
            None => {},
        }
    }
    while pos < bytes.len()
        invariant
            0 <= pos <= bytes@.len(),
            all_wf(out@),
            (match spec_unpack(bytes@.skip(pos as int)) {
                Some(rest) => spec_unpack(bytes@) == Some(models(out@) + rest),
                None => spec_unpack(bytes@) is None,
            }),
        decreases bytes@.len() - pos,
    {
        let ghost t = bytes@.skip(pos as int);
        let info = bytes[pos];
        assert(t[0] == info);
        let low = info & 0x3f;
        let bc: u8 = if low == 0 {
            64
        } else {
            low
        };
        proof {
            assert(info & 0x3fu8 <= 63u8) by (bit_vector);
            assert(bc == spec_bit_count_of_info(info));
        }
        let nb = bytes_for_bits(bc);
        let avail = bytes.len() - pos - 1;
        if nb > avail {
            proof {
                assert(t.len() < 1 + spec_bytes_for_bits(spec_bit_count_of_info(t[0])));
                assert(spec_unpack(t) is None);
            }
            return Err(ProtocolError::MalformedResponse);
        }
        let ghost raw = bytes@.subrange(pos as int + 1, pos as int + 1 + nb as int);
        let mut data: Vec<u8> = Vec::new();
        let mut j: usize = 0;
        while j + 1 < nb
            invariant
                0 <= j < nb,
                data@ == raw.take(j as int),
            decreases nb - j,
        {
            data.push(bytes[pos + 1 + j]);
            proof {
                assert(data@ =~= raw.take(j as int + 1));
            }
            j = j + 1;
        }
        let lastb = bytes[pos + nb];
        let k = bc % 8;
        let masked = if k == 0 {
            lastb
        } else {
            lastb & low_mask(k)
        };
        data.push(masked);
        proof {
            assert(raw.last() == lastb);
            if k == 0 {
                assert(data@ =~= raw);
                assert(data@ =~= spec_mask_last(bc, raw));
            } else {
                assert(data@ =~= raw.update(raw.len() - 1, lastb & spec_low_mask(k)));
                assert(data@ =~= spec_mask_last(bc, raw));
            }
        }
        let seg = SequenceSegment {
            bit_count: bc,
            tms: info & 0x40 != 0,
            capture: info & 0x80 != 0,
            data,
        };
        proof {
            let m = spec_low_mask(k);
            assert((lastb & m) & m == lastb & m) by (bit_vector);
            assert(lastb & 0xffu8 == lastb) by (bit_vector);
            assert(seg@.data.last() & spec_low_mask(bc % 8) == seg@.data.last());
            assert(seg@.wf());
        }
        let ghost out_old = out@;
        out.push(seg);
        let newpos = pos + 1 + nb;
        proof {
            assert(t.len() >= 1 + nb);
            assert(t.subrange(1, 1 + nb as int) =~= raw);
            assert(t.skip(1 + nb as int) =~= bytes@.skip(newpos as int));
            let m = SegModel {
                bit_count: spec_bit_count_of_info(t[0]),
                tms: spec_tms_of_info(t[0]),
                capture: spec_capture_of_info(t[0]),
                data: spec_mask_last(spec_bit_count_of_info(t[0]), t.subrange(
                    1,
                    1 + spec_bytes_for_bits(spec_bit_count_of_info(t[0])),
                )),
            };
            assert(m =~= seg@);
            assert(models(out@) =~= models(out_old) + seq![seg@]);
            match spec_unpack(bytes@.skip(newpos as int)) {
                Some(rest) => {
                    assert(spec_unpack(t) == Some(seq![seg@] + rest));
                    assert(models(out_old) + (seq![seg@] + rest) =~= models(out@) + rest);
                },
                None => {
                    assert(spec_unpack(t) is None);
                },
            }
        }
        pos = newpos;
    }
    proof {
        assert(bytes@.skip(pos as int) =~= Seq::<u8>::empty());
        assert(models(out@) + Seq::<SegModel>::empty() =~= models(out@));
    }
    Ok(out)
}

/// The segment list that drives a JTAG TAP to Test-Logic-Reset: 64
/// clocks with TMS held high and TDI held high, as one segment without
/// capture.
pub fn jtag_reset_segments() -> (r: Vec<SequenceSegment>)
    ensures
        models(r@) == seq![
            SegModel { bit_count: 64u8, tms: true, capture: false, data: Seq::new(8, |i: int| 0xffu8) },
        ],
        all_wf(r@),
{
    let mut data: Vec<u8> = Vec::new();
    let mut j: usize = 0;
    while j < 8
        invariant
            0 <= j <= 8,
            data@ == Seq::new(j as nat, |i: int| 0xffu8),
        decreases 8 - j,
    {
        data.push(0xff);
        proof {
            assert(data@ =~= Seq::new(j as nat + 1, |i: int| 0xffu8));
        }
        j = j + 1;
    }
    let seg = SequenceSegment { bit_count: 64, tms: true, capture: false, data };
    proof {
        assert(0xffu8 & 0xffu8 == 0xffu8) by (bit_vector);
        assert(seg@.wf());
    }
    let mut r: Vec<SequenceSegment> = Vec::new();
    r.push(seg);
    proof {
        assert(models(r@) =~= seq![seg@]);
    }
    r
}

/// The single-bit segment with the given TMS level and TDI held high,
/// zero-padded as the packer requires.
fn tms_step_segment(tms: bool) -> (r: SequenceSegment)
    ensures
        r@ == (SegModel { bit_count: 1u8, tms, capture: false, data: seq![0x01u8] }),
        r@.wf(),
{
    let mut data: Vec<u8> = Vec::new();
    data.push(0x01);
    let seg = SequenceSegment { bit_count: 1, tms, capture: false, data };
    proof {
        assert(seg@.data =~= seq![0x01u8]);
        assert(0x01u8 & 0x01u8 == 0x01u8) by (bit_vector);
        assert(seg@.wf());
    }
    seg
}

/// The TMS walk from Test-Logic-Reset to Shift-DR: four single-bit
/// segments with TMS low, high, low, low, issued one command per
/// segment.
pub fn move_to_shift_dr_segments() -> (r: Vec<SequenceSegment>)
    ensures
        models(r@) == seq![
            SegModel { bit_count: 1u8, tms: false, capture: false, data: seq![0x01u8] },
            SegModel { bit_count: 1u8, tms: true, capture: false, data: seq![0x01u8] },
            SegModel { bit_count: 1u8, tms: false, capture: false, data: seq![0x01u8] },
            SegModel { bit_count: 1u8, tms: false, capture: false, data: seq![0x01u8] },
        ],
        all_wf(r@),
{
    let mut r: Vec<SequenceSegment> = Vec::new();
    r.push(tms_step_segment(false));
    r.push(tms_step_segment(true));
    r.push(tms_step_segment(false));
    r.push(tms_step_segment(false));
    proof {
        assert(models(r@) =~= seq![
            SegModel { bit_count: 1u8, tms: false, capture: false, data: seq![0x01u8] },
            SegModel { bit_count: 1u8, tms: true, capture: false, data: seq![0x01u8] },
            SegModel { bit_count: 1u8, tms: false, capture: false, data: seq![0x01u8] },
            SegModel { bit_count: 1u8, tms: false, capture: false, data: seq![0x01u8] },
        ]);
    }
    r
}

/// Packing distributes over list concatenation.
proof fn lemma_pack_append(a: Seq<SegModel>, b: Seq<SegModel>)
    ensures
        spec_pack(a + b) == spec_pack(a) + spec_pack(b),
    decreases a.len(),
{
    if a.len() == 0 {
        assert(a + b =~= b);
        assert(spec_pack(a) + spec_pack(b) =~= spec_pack(b));
    } else {
        assert((a + b)[0] == a[0]);
        assert((a + b).skip(1) =~= a.skip(1) + b);
        lemma_pack_append(a.skip(1), b);
        assert(spec_pack_seg(a[0]) + (spec_pack(a.skip(1)) + spec_pack(b)) =~= (spec_pack_seg(a[0])
            + spec_pack(a.skip(1))) + spec_pack(b));
    }
}

/// Decoding an info byte recovers the bit count, TMS level and capture
/// flag it was built from, for every bit count the protocol allows.
proof fn lemma_info_round_trip(bc: u8, tms: bool, capture: bool)
    by (bit_vector)
    requires
        1 <= bc <= 64,
    ensures
        ({
            let info = (if bc == 64 {
                0u8
            } else {
                bc
            }) | (if tms {
                0x40u8
            } else {
                0u8
            }) | (if capture {
                0x80u8
            } else {
                0u8
            });
            &&& (if info & 0x3f == 0 {
                64u8
            } else {
                info & 0x3f
            }) == bc
            &&& (info & 0x40 != 0) == tms
            &&& (info & 0x80 != 0) == capture
        }),
{
}

/// Unpacking the packed bytes of a well-formed segment list, followed by
/// any tail, yields the list back followed by whatever the tail parses
/// to.
proof fn lemma_unpack_pack_with_tail(ms: Seq<SegModel>, tail: Seq<u8>)
    requires
        forall|i: int| 0 <= i < ms.len() ==> (#[trigger] ms[i]).wf(),
    ensures
        spec_unpack(spec_pack(ms) + tail) == (match spec_unpack(tail) {
            Some(rest) => Some(ms + rest),
            None => None::<Seq<SegModel>>,
        }),
    decreases ms.len(),
{
    if ms.len() == 0 {
        assert(spec_pack(ms) + tail =~= tail);
        match spec_unpack(tail) {
            Some(rest) => {
                assert(ms + rest =~= rest);
            },
            None => {},
        }
    } else {
        let m = ms[0];
        let b = spec_pack(ms) + tail;
        let rest_b = spec_pack(ms.skip(1)) + tail;
        assert(b =~= spec_pack_seg(m) + rest_b);
        let info = m.spec_info_byte();
        assert(b[0] == info);
        lemma_info_round_trip(m.bit_count, m.tms, m.capture);
        assert(spec_bit_count_of_info(info) == m.bit_count);
        assert(spec_tms_of_info(info) == m.tms);
        assert(spec_capture_of_info(info) == m.capture);
        let nb = spec_bytes_for_bits(m.bit_count);
        assert(b.len() >= 1 + nb);
        assert(b.subrange(1, 1 + nb) =~= m.data);
        assert(m.data.update(m.data.len() - 1, m.data.last()) =~= m.data);
        assert(spec_mask_last(m.bit_count, m.data) =~= m.data);
        let m2 = SegModel {
            bit_count: spec_bit_count_of_info(b[0]),
            tms: spec_tms_of_info(b[0]),
            capture: spec_capture_of_info(b[0]),
            data: spec_mask_last(spec_bit_count_of_info(b[0]), b.subrange(
                1,
                1 + spec_bytes_for_bits(spec_bit_count_of_info(b[0])),
            )),
        };
        assert(m2 =~= m);
        assert(b.skip(1 + nb) =~= rest_b);
        lemma_unpack_pack_with_tail(ms.skip(1), tail);
        match spec_unpack(tail) {
            Some(r) => {
                assert(spec_unpack(rest_b) == Some(ms.skip(1) + r));
                assert(seq![m] + (ms.skip(1) + r) =~= ms + r);
            },
            None => {
                assert(spec_unpack(rest_b) is None);
            },
        }
    }
}

/// Round trip: unpacking the packed bytes of any list of 1 to 255
/// well-formed segments yields that list back unchanged.
pub proof fn lemma_pack_unpack_round_trip(ms: Seq<SegModel>)
    requires
        1 <= ms.len() <= 255,
        forall|i: int| 0 <= i < ms.len() ==> (#[trigger] ms[i]).wf(),
    ensures
        spec_unpack(spec_pack(ms)) == Some(ms),
{
    lemma_unpack_pack_with_tail(ms, Seq::empty());
    assert(spec_pack(ms) + Seq::<u8>::empty() =~= spec_pack(ms));
    assert(spec_unpack(Seq::<u8>::empty()) == Some(Seq::<SegModel>::empty()));
    assert(ms + Seq::<SegModel>::empty() =~= ms);
}

/// The mask of the significant bits of a final data byte, from the
/// remainder `bit_count % 8`.
pub fn low_mask(k: u8) -> (m: u8)
    ensures
        m == spec_low_mask(k),
{
    if k == 0 {
        0xff
    } else if k == 1 {
        0x01
    } else if k == 2 {
        0x03
    } else if k == 3 {
        0x07
    } else if k == 4 {
        0x0f
    } else if k == 5 {
        0x1f
    } else if k == 6 {
        0x3f
    } else {
        0x7f
    }
}

} // verus!
