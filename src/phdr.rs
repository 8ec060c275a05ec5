use crate::bytes::{le_u32_at, le_u64_at, lemma_len_fits, read_u32, read_u64};
use crate::record::ElfRecord;
use crate::{Elf64Addr, Elf64Off, Elf64Word, Elf64Xword};
use vstd::prelude::*;

verus! {

/// Program segment header.
#[derive(Clone, Copy, Debug, PartialEq, Eq, Structural)]
pub struct Elf64Phdr {
    /// Segment type
    pub p_type: Elf64Word,
    /// Segment flags
    pub p_flags: Elf64Word,
    /// Segment file offset
    pub p_offset: Elf64Off,
    /// Segment virtual address
    pub p_vaddr: Elf64Addr,
    /// Segment physical address
    pub p_paddr: Elf64Addr,
    /// Segment size in file
    pub p_filesz: Elf64Xword,
    /// Segment size in memory
    pub p_memsz: Elf64Xword,
    /// Segment alignment
    pub p_align: Elf64Xword,
}

impl Elf64Phdr {
    /// Whether the segment is loadable.
    pub fn is_load(&self) -> (r: bool)
        ensures
            r == (self.p_type == PT_LOAD),
    {
        self.p_type == PT_LOAD
    }

    /// Whether the segment's executable flag is set.
    pub fn is_executable(&self) -> (r: bool)
        ensures
            r == (self.p_flags & PF_X != 0),
    {
        self.p_flags & PF_X != 0
    }

    /// Whether the segment's writable flag is set.
    pub fn is_writable(&self) -> (r: bool)
        ensures
            r == (self.p_flags & PF_W != 0),
    {
        self.p_flags & PF_W != 0
    }

    /// Whether the segment's readable flag is set.
    pub fn is_readable(&self) -> (r: bool)
        ensures
            r == (self.p_flags & PF_R != 0),
    {
        self.p_flags & PF_R != 0
    }
}

impl ElfRecord for Elf64Phdr {
    open spec fn spec_size() -> nat {
        56
    }

    open spec fn spec_decode(b: Seq<u8>, off: int) -> Self {
        Elf64Phdr {
            p_type: le_u32_at(b, off),
            p_flags: le_u32_at(b, off + 4),
            p_offset: le_u64_at(b, off + 8),
            p_vaddr: le_u64_at(b, off + 16),
            p_paddr: le_u64_at(b, off + 24),
            p_filesz: le_u64_at(b, off + 32),
            p_memsz: le_u64_at(b, off + 40),
            p_align: le_u64_at(b, off + 48),
        }
    }

    fn size() -> (r: usize) {
        56
    }

    fn decode(buf: &[u8], off: usize) -> (r: Self) {
        proof {
            lemma_len_fits(buf);
        }
        Elf64Phdr {
            p_type: read_u32(buf, off),
            p_flags: read_u32(buf, off + 4),
            p_offset: read_u64(buf, off + 8),
            p_vaddr: read_u64(buf, off + 16),
            p_paddr: read_u64(buf, off + 24),
            p_filesz: read_u64(buf, off + 32),
            p_memsz: read_u64(buf, off + 40),
            p_align: read_u64(buf, off + 48),
        }
    }
}

/// Loadable program segment
pub const PT_LOAD: Elf64Word = 1;

/// Segment is executable
pub const PF_X: Elf64Word = 1;

/// Segment is writable
pub const PF_W: Elf64Word = 2;

/// Segment is readable
pub const PF_R: Elf64Word = 4;

} // verus!
