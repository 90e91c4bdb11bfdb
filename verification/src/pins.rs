//! The SWJ pin bitmask.
//!
//! The SWJ pin operations drive and read the multiplexed debug lines
//! through a single byte, one bit per named line. Bits 4 and 6 of that
//! byte are unused by the protocol and are kept at zero by every
//! constructor and combinator, so rendering a mask to its wire byte and
//! parsing it back is an exact inverse pair.

use vstd::prelude::*;

verus! {

/// Wire bit of the SWCLK/TCK clock line.
pub const PIN_SWCLK_TCK: u8 = 0x01;

/// Wire bit of the SWDIO/TMS data line.
pub const PIN_SWDIO_TMS: u8 = 0x02;

/// Wire bit of the TDI line.
pub const PIN_TDI: u8 = 0x04;

/// Wire bit of the TDO line.
pub const PIN_TDO: u8 = 0x08;

/// Wire bit of the nTRST (test reset) line.
pub const PIN_N_TRST: u8 = 0x20;

/// Wire bit of the nRESET (target reset) line.
pub const PIN_N_RESET: u8 = 0x80;

/// The bits a pin byte may carry: everything but the unused bits 4 and 6.
pub const PIN_MASK_USED_BITS: u8 = 0xaf;

/// A set of named SWJ lines, one bit per line.
///
/// Invariant: the unused bit positions (bits 4 and 6) are zero.
#[derive(Clone, Copy, Debug, PartialEq, Eq, Structural)]
pub struct PinMask {
    byte: u8,
}

impl View for PinMask {
    type V = u8;

    /// The wire byte this mask renders to.
    closed spec fn view(&self) -> u8 {
        self.byte
    }
}

impl PinMask {
    /// A pin byte is valid when the unused bit positions are zero.
    pub open spec fn byte_wf(b: u8) -> bool {
        b & PIN_MASK_USED_BITS == b
    }

    /// The mask's invariant: its byte carries only used bit positions.
    pub open spec fn wf(self) -> bool {
        PinMask::byte_wf(self@)
    }

    /// The mask a byte parses to: the byte with the unused bits cleared.
    pub open spec fn spec_from_byte(b: u8) -> u8 {
        b & PIN_MASK_USED_BITS
    }

    /// The mask with no line set.
    pub fn empty() -> (r: PinMask)
        ensures
            r@ == 0u8,
            r.wf(),
    {
        proof {
            assert(0u8 & 0xafu8 == 0u8) by (bit_vector);
        }
        PinMask { byte: 0 }
    }

    /// The mask with exactly the SWCLK/TCK line set.
    pub fn swclk_tck() -> (r: PinMask)
        ensures
            r@ == PIN_SWCLK_TCK,
            r.wf(),
    {
        proof {
            assert(0x01u8 & 0xafu8 == 0x01u8) by (bit_vector);
        }
        PinMask { byte: 0x01 }
    }

    /// The mask with exactly the SWDIO/TMS line set.
    pub fn swdio_tms() -> (r: PinMask)
        ensures
            r@ == PIN_SWDIO_TMS,
            r.wf(),
    {
        proof {
            assert(0x02u8 & 0xafu8 == 0x02u8) by (bit_vector);
        }
        PinMask { byte: 0x02 }
    }

    /// The mask with exactly the TDI line set.
    pub fn tdi() -> (r: PinMask)
        ensures
            r@ == PIN_TDI,
            r.wf(),
    {
        proof {
            assert(0x04u8 & 0xafu8 == 0x04u8) by (bit_vector);
        }
        PinMask { byte: 0x04 }
    }

    /// The mask with exactly the TDO line set.
    pub fn tdo() -> (r: PinMask)
        ensures
            r@ == PIN_TDO,
            r.wf(),
    {
        proof {
            assert(0x08u8 & 0xafu8 == 0x08u8) by (bit_vector);
        }
        PinMask { byte: 0x08 }
    }

    /// The mask with exactly the nTRST line set.
    pub fn n_trst() -> (r: PinMask)
        ensures
            r@ == PIN_N_TRST,
            r.wf(),
    {
        proof {
            assert(0x20u8 & 0xafu8 == 0x20u8) by (bit_vector);
        }
        PinMask { byte: 0x20 }
    }

    /// The mask with exactly the nRESET line set.
    pub fn n_reset() -> (r: PinMask)
        ensures
            r@ == PIN_N_RESET,
            r.wf(),
    {
        proof {
            assert(0x80u8 & 0xafu8 == 0x80u8) by (bit_vector);
        }
        PinMask { byte: 0x80 }
    }

    /// Whether the SWCLK/TCK line is set.
    pub fn has_swclk_tck(&self) -> (r: bool)
        ensures
            r == (self@ & PIN_SWCLK_TCK != 0),
    {
        self.byte & PIN_SWCLK_TCK != 0
    }

    /// Whether the SWDIO/TMS line is set.
    pub fn has_swdio_tms(&self) -> (r: bool)
        ensures
            r == (self@ & PIN_SWDIO_TMS != 0),
    {
        self.byte & PIN_SWDIO_TMS != 0
    }

    /// Whether the TDI line is set.
    pub fn has_tdi(&self) -> (r: bool)
        ensures
            r == (self@ & PIN_TDI != 0),
    {
        self.byte & PIN_TDI != 0
    }

    /// Whether the TDO line is set.
    pub fn has_tdo(&self) -> (r: bool)
        ensures
            r == (self@ & PIN_TDO != 0),
    {
        self.byte & PIN_TDO != 0
    }

    /// Whether the nTRST line is set.
    pub fn has_n_trst(&self) -> (r: bool)
        ensures
            r == (self@ & PIN_N_TRST != 0),
    {
        self.byte & PIN_N_TRST != 0
    }

    /// Whether the nRESET line is set.
    pub fn has_n_reset(&self) -> (r: bool)
        ensures
            r == (self@ & PIN_N_RESET != 0),
    {
        self.byte & PIN_N_RESET != 0
    }

    /// The lines set in either mask.
    pub fn union(self, other: PinMask) -> (r: PinMask)
        ensures
            r@ == self@ | other@,
            self.wf() && other.wf() ==> r.wf(),
    {
        proof {
            let a = self.byte;
            let b = other.byte;
            assert(a & 0xafu8 == a && b & 0xafu8 == b ==> (a | b) & 0xafu8 == (a | b))
                by (bit_vector);
        }
        PinMask { byte: self.byte | other.byte }
    }

    /// The lines set in both masks.
    pub fn intersect(self, other: PinMask) -> (r: PinMask)
        ensures
            r@ == self@ & other@,
            self.wf() && other.wf() ==> r.wf(),
    {
        proof {
            let a = self.byte;
            let b = other.byte;
            assert(a & 0xafu8 == a && b & 0xafu8 == b ==> (a & b) & 0xafu8 == (a & b))
                by (bit_vector);
        }
        PinMask { byte: self.byte & other.byte }
    }

    /// Render the mask as its single wire byte.
    pub fn to_byte(self) -> (b: u8)
        ensures
            b == self@,
    {
        self.byte
    }

    /// Parse a wire byte into a mask, clearing the unused bit positions.
    pub fn from_byte(b: u8) -> (r: PinMask)
        ensures
            r@ == PinMask::spec_from_byte(b),
            r.wf(),
    {
        proof {
            assert((b & 0xafu8) & 0xafu8 == b & 0xafu8) by (bit_vector);
        }
        PinMask { byte: b & PIN_MASK_USED_BITS }
    }
}

/// Parsing the rendered byte of any valid mask yields the mask itself.
pub proof fn lemma_pin_mask_round_trip(m: PinMask)
    requires
        m.wf(),
    ensures
        PinMask::spec_from_byte(m@) == m@,
{
}

/// Two masks with the same wire byte are the same mask, so the byte
/// round trip above carries over to the masks themselves.
pub proof fn lemma_pin_mask_injective(a: PinMask, b: PinMask)
    requires
        a@ == b@,
    ensures
        a == b,
{
}

} // verus!
