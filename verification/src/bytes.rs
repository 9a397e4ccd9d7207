//! Little-endian field access on byte sequences.
use vstd::prelude::*;

verus! {

/// The little-endian `u16` stored at `off`.
pub open spec fn le_u16(d: Seq<u8>, off: int) -> u16 {
    (d[off] as int + d[off + 1] as int * 0x100) as u16
}

/// The little-endian `u32` stored at `off`.
pub open spec fn le_u32(d: Seq<u8>, off: int) -> u32 {
    (d[off] as int + d[off + 1] as int * 0x100 + d[off + 2] as int * 0x1_0000 + d[off + 3] as int
        * 0x100_0000) as u32
}

/// Read the little-endian `u16` at `off`.
pub fn read_u16_le(data: &[u8], off: usize) -> (r: u16)
    requires
        off + 2 <= data@.len(),
    ensures
        r == le_u16(data@, off as int),
{
    data[off] as u16 + (data[off + 1] as u16) * 0x100
}

/// Read the little-endian `u32` at `off`.
pub fn read_u32_le(data: &[u8], off: usize) -> (r: u32)
    requires
        off + 4 <= data@.len(),
    ensures
        r == le_u32(data@, off as int),
{
    data[off] as u32 + (data[off + 1] as u32) * 0x100 + (data[off + 2] as u32) * 0x1_0000 + (
    data[off + 3] as u32) * 0x100_0000
}

/// The little-endian bytes of `n` read back as `n`.
pub proof fn lemma_le_u32_bytes(n: u32, f: Seq<u8>)
    requires
        f.len() >= 4,
        f[0] == (n & 0xffu32) as u8,
        f[1] == ((n >> 8u32) & 0xffu32) as u8,
        f[2] == ((n >> 16u32) & 0xffu32) as u8,
        f[3] == ((n >> 24u32) & 0xffu32) as u8,
    ensures
        le_u32(f, 0) == n,
{
    let b0 = f[0];
    let b1 = f[1];
    let b2 = f[2];
    let b3 = f[3];
    assert(((b0 as u32) + (b1 as u32) * 0x100u32 + (b2 as u32) * 0x1_0000u32 + (b3 as u32)
        * 0x100_0000u32) == n) by (bit_vector)
        requires
            b0 == (n & 0xffu32) as u8,
            b1 == ((n >> 8u32) & 0xffu32) as u8,
            b2 == ((n >> 16u32) & 0xffu32) as u8,
            b3 == ((n >> 24u32) & 0xffu32) as u8,
    ;
}

} // verus!
