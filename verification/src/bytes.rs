//! Little-endian integer reads from byte buffers.
//!
//! Both the BC1 block stream and the DDS header are packed structures of
//! little-endian integers; these helpers read them field by field, with
//! explicit bounds, instead of overlaying a struct onto raw memory.

use vstd::prelude::*;

verus! {

/// The 16-bit little-endian integer stored at `off`.
pub open spec fn le16(d: Seq<u8>, off: int) -> int {
    d[off] + d[off + 1] * 0x100
}

/// The 32-bit little-endian integer stored at `off`.
pub open spec fn le32(d: Seq<u8>, off: int) -> int {
    d[off] + d[off + 1] * 0x100 + d[off + 2] * 0x1_0000 + d[off + 3] * 0x100_0000
}

/// Reads the 16-bit little-endian integer at `off`.
pub fn read_le16(d: &[u8], off: usize) -> (r: u16)
    requires
        off + 2 <= d@.len(),
    ensures
        r == le16(d@, off as int),
{
    let b0 = d[off];
    let b1 = d[off + 1];
    b0 as u16 + b1 as u16 * 0x100
}

/// Reads the 32-bit little-endian integer at `off`.
pub fn read_le32(d: &[u8], off: usize) -> (r: u32)
    requires
        off + 4 <= d@.len(),
    ensures
        r == le32(d@, off as int),
{
    let b0 = d[off];
    let b1 = d[off + 1];
    let b2 = d[off + 2];
    let b3 = d[off + 3];
    b0 as u32 + b1 as u32 * 0x100 + b2 as u32 * 0x1_0000 + b3 as u32 * 0x100_0000
}

} // verus!
