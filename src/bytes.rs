//! Little-endian reads of fixed-width fields at a byte offset.
use vstd::bytes::{
    spec_u16_from_le_bytes, spec_u32_from_le_bytes, spec_u64_from_le_bytes, u16_from_le_bytes,
    u32_from_le_bytes, u64_from_le_bytes,
};
use vstd::prelude::*;
use vstd::slice::slice_subrange;

verus! {

/// The 16-bit field stored at `off`.
pub open spec fn le_u16_at(b: Seq<u8>, off: int) -> u16 {
    spec_u16_from_le_bytes(b.subrange(off, off + 2))
}

/// The 32-bit field stored at `off`.
pub open spec fn le_u32_at(b: Seq<u8>, off: int) -> u32 {
    spec_u32_from_le_bytes(b.subrange(off, off + 4))
}

/// The 64-bit field stored at `off`.
pub open spec fn le_u64_at(b: Seq<u8>, off: int) -> u64 {
    spec_u64_from_le_bytes(b.subrange(off, off + 8))
}

/// A slice never holds more than `usize::MAX` elements.
pub proof fn lemma_len_fits<T>(buf: &[T])
    ensures
        buf@.len() <= usize::MAX,
{
    assert(buf@.len() == buf.len());
}

pub fn read_u16(buf: &[u8], off: usize) -> (r: u16)
    requires
        off + 2 <= buf@.len(),
    ensures
        r == le_u16_at(buf@, off as int),
{
    proof {
        lemma_len_fits(buf);
    }
    u16_from_le_bytes(slice_subrange(buf, off, off + 2))
}

pub fn read_u32(buf: &[u8], off: usize) -> (r: u32)
    requires
        off + 4 <= buf@.len(),
    ensures
        r == le_u32_at(buf@, off as int),
{
    proof {
        lemma_len_fits(buf);
    }
    u32_from_le_bytes(slice_subrange(buf, off, off + 4))
}

pub fn read_u64(buf: &[u8], off: usize) -> (r: u64)
    requires
        off + 8 <= buf@.len(),
    ensures
        r == le_u64_at(buf@, off as int),
{
    proof {
        lemma_len_fits(buf);
    }
    u64_from_le_bytes(slice_subrange(buf, off, off + 8))
}

} // verus!
