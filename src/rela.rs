use crate::bytes::{le_u64_at, lemma_len_fits, read_u64};
use crate::record::ElfRecord;
use crate::{Elf64Addr, Elf64Sxword, Elf64Xword};
use vstd::prelude::*;

verus! {

/// Relocation table entry with addend (in a section of type `SHT_RELA`).
#[derive(Clone, Copy, Debug, PartialEq, Eq, Structural)]
pub struct Elf64Rela {
    /// Address
    pub r_offset: Elf64Addr,
    /// Relocation type and symbol index
    pub r_info: Elf64Xword,
    /// Addend
    pub r_addend: Elf64Sxword,
}

impl Elf64Rela {
    /// The symbol index: the high 32 bits of `r_info`.
    pub fn r_sym(&self) -> (r: usize)
        ensures
            r as int == self.r_info >> 32,
            r as int == self.r_info as int / 0x1_0000_0000,
    {
        let x = self.r_info;
        assert(x >> 32 < 0x1_0000_0000 && x >> 32 == x / 0x1_0000_0000) by (bit_vector);
        (x >> 32) as usize
    }

    /// The relocation type: the low 32 bits of `r_info`.
    pub fn r_type(&self) -> (r: usize)
        ensures
            r as int == self.r_info & 0xffff_ffff,
            r as int == self.r_info as int % 0x1_0000_0000,
    {
        let x = self.r_info;
        assert(x & 0xffff_ffff < 0x1_0000_0000 && x & 0xffff_ffff == x % 0x1_0000_0000)
            by (bit_vector);
        (x & 0xffff_ffff) as usize
    }
}

impl ElfRecord for Elf64Rela {
    open spec fn spec_size() -> nat {
        24
    }

    open spec fn spec_decode(b: Seq<u8>, off: int) -> Self {
        Elf64Rela {
            r_offset: le_u64_at(b, off),
            r_info: le_u64_at(b, off + 8),
            r_addend: le_u64_at(b, off + 16) as i64,
        }
    }

    fn size() -> (r: usize) {
        24
    }

    #[verifier::truncate]
    fn decode(buf: &[u8], off: usize) -> (r: Self) {
        proof {
            lemma_len_fits(buf);
        }
        Elf64Rela {
            r_offset: read_u64(buf, off),
            r_info: read_u64(buf, off + 8),
            r_addend: read_u64(buf, off + 16) as i64,
        }
    }
}

} // verus!
