//! Extraction of 2-bit fields ("crumbs") from a byte. Both sprite-sheet
//! encodings store pixel data four crumbs to the byte.
use vstd::prelude::*;

verus! {

pub const CRUMB_BITS: u8 = 2;

pub const CRUMB_MASK: u8 = 0x3;

pub const CRUMBS_PER_BYTE: usize = 4;

/// The 2-bit field of `val` at bit position `2 * part`: part 0 is the least
/// significant pair of bits, part 3 the most significant.
pub open spec fn spec_crumb(val: u8, part: u8) -> u8 {
    (val >> ((2 * part) as u8)) & 0x3
}

/// A crumb always fits in 2 bits.
pub proof fn lemma_crumb_bound(val: u8, part: u8)
    ensures
        spec_crumb(val, part) < 4,
{
    assert((val >> ((2 * part) as u8)) & 0x3 < 4) by (bit_vector);
}

/// Extract a 2-bit subregion from an 8-bit value.
///
/// `part` selects which of the four crumb subdivisions of `val` to extract,
/// counted from the least significant end; callers must keep it below 4.
pub fn crumb(val: &u8, part: u8) -> (r: u8)
    requires
        part < 4,
    ensures
        r == spec_crumb(*val, part),
        r < 4,
{
    proof {
        lemma_crumb_bound(*val, part);
    }
    (*val >> (CRUMB_BITS * part)) & CRUMB_MASK
}

} // verus!
