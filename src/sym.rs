use crate::bytes::{le_u16_at, lemma_len_fits, le_u32_at, le_u64_at, read_u16, read_u32, read_u64};
use crate::record::ElfRecord;
use crate::{Elf64Addr, Elf64Section, Elf64Word, Elf64Xword};
use vstd::prelude::*;

verus! {

/// Symbol table entry.
#[derive(Clone, Copy, Debug, PartialEq, Eq, Structural)]
pub struct Elf64Sym {
    /// Symbol name (string table index)
    pub st_name: Elf64Word,
    /// Symbol type and binding
    pub st_info: u8,
    /// Symbol visibility
    pub st_other: u8,
    /// Section index
    pub st_shndx: Elf64Section,
    /// Symbol value
    pub st_value: Elf64Addr,
    /// Symbol size
    pub st_size: Elf64Xword,
}

impl Elf64Sym {
    /// The symbol's binding: the high nibble of `st_info`, passed through
    /// whatever its value.
    pub fn st_bind(&self) -> (r: u8)
        ensures
            r == self.st_info >> 4,
            r as int == self.st_info as int / 16,
    {
        let x = self.st_info;
        assert(x >> 4 == x / 16) by (bit_vector);
        x >> 4
    }

    /// The symbol's type: the low nibble of `st_info`, passed through
    /// whatever its value.
    pub fn st_type(&self) -> (r: u8)
        ensures
            r == self.st_info & 0xf,
            r as int == self.st_info as int % 16,
    {
        let x = self.st_info;
        assert(x & 0xf == x % 16) by (bit_vector);
        x & 0xf
    }
}

impl ElfRecord for Elf64Sym {
    open spec fn spec_size() -> nat {
        24
    }

    open spec fn spec_decode(b: Seq<u8>, off: int) -> Self {
        Elf64Sym {
            st_name: le_u32_at(b, off),
            st_info: b[off + 4],
            st_other: b[off + 5],
            st_shndx: le_u16_at(b, off + 6),
            st_value: le_u64_at(b, off + 8),
            st_size: le_u64_at(b, off + 16),
        }
    }

    fn size() -> (r: usize) {
        24
    }

    fn decode(buf: &[u8], off: usize) -> (r: Self) {
        proof {
            lemma_len_fits(buf);
        }
        Elf64Sym {
            st_name: read_u32(buf, off),
            st_info: buf[off + 4],
            st_other: buf[off + 5],
            st_shndx: read_u16(buf, off + 6),
            st_value: read_u64(buf, off + 8),
            st_size: read_u64(buf, off + 16),
        }
    }
}

/// Legal values for the binding subfield of `st_info`.
/// Local symbol
pub const STB_LOCAL: u8 = 0;

/// Global symbol
pub const STB_GLOBAL: u8 = 1;

/// Weak symbol
pub const STB_WEAK: u8 = 2;

/// Number of defined types.
pub const STB_NUM: u8 = 3;

/// Start of OS-specific
pub const STB_LOOS: u8 = 10;

/// Unique symbol.
pub const STB_GNU_UNIQUE: u8 = 10;

/// End of OS-specific
pub const STB_HIOS: u8 = 12;

/// Start of processor-specific
pub const STB_LOPROC: u8 = 13;

/// End of processor-specific
pub const STB_HIPROC: u8 = 15;

/// Legal values for the type subfield of `st_info`.
/// Symbol type is unspecified
pub const STT_NOTYPE: u8 = 0;

/// Symbol is a data object
pub const STT_OBJECT: u8 = 1;

/// Symbol is a code object
pub const STT_FUNC: u8 = 2;

/// Symbol associated with a section
pub const STT_SECTION: u8 = 3;

/// Symbol's name is file name
pub const STT_FILE: u8 = 4;

/// Symbol is a common data object
pub const STT_COMMON: u8 = 5;

/// Symbol is thread-local data object
pub const STT_TLS: u8 = 6;

/// Number of defined types.
pub const STT_NUM: u8 = 7;

/// Start of OS-specific
pub const STT_LOOS: u8 = 10;

/// Symbol is indirect code object
pub const STT_GNU_IFUNC: u8 = 10;

/// End of OS-specific
pub const STT_HIOS: u8 = 12;

/// Start of processor-specific
pub const STT_LOPROC: u8 = 13;

/// End of processor-specific
pub const STT_HIPROC: u8 = 15;

} // verus!
