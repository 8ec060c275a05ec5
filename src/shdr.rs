use crate::bytes::{le_u32_at, le_u64_at, lemma_len_fits, read_u32, read_u64};
use crate::error::ElfError;
use crate::record::{read_table, spec_read_table, ElfRecord};
use crate::{Elf64Addr, Elf64Off, Elf64Word, Elf64Xword};
use vstd::prelude::*;
use vstd::string::StringSliceAdditionalSpecFns;
use vstd::utf8::valid_utf8;

verus! {

/// Section header.
#[derive(Clone, Copy, Debug, PartialEq, Eq, Structural)]
pub struct Elf64Shdr {
    /// Section name (string table index)
    pub sh_name: Elf64Word,
    /// Section type
    pub sh_type: Elf64Word,
    /// Section flags
    pub sh_flags: Elf64Xword,
    /// Section virtual address at execution
    pub sh_addr: Elf64Addr,
    /// Section file offset
    pub sh_offset: Elf64Off,
    /// Section size in bytes
    pub sh_size: Elf64Xword,
    /// Link to another section
    pub sh_link: Elf64Word,
    /// Additional section information
    pub sh_info: Elf64Word,
    /// Section alignment
    pub sh_addralign: Elf64Xword,
    /// Entry size if section holds table
    pub sh_entsize: Elf64Xword,
}

/// Relies on `core::str::from_utf8`: it accepts exactly the valid UTF-8 byte
/// strings, and the text it then hands back is made of those same bytes.
#[verifier::external_body]
fn utf8_text<'a>(b: &'a [u8]) -> (r: Option<&'a str>)
    ensures
        r is Some <==> valid_utf8(b@),
        r matches Some(s) ==> s.spec_bytes() == b@,
{
    core::str::from_utf8(b).ok()
}

/// The index of the first zero byte of `b` at or after `i`, or `b.len()` if
/// there is none.
pub open spec fn name_end(b: Seq<u8>, i: int) -> int
    decreases b.len() - i,
{
    if 0 <= i < b.len() {
        if b[i] == 0 {
            i
        } else {
            name_end(b, i + 1)
        }
    } else {
        b.len() as int
    }
}

pub(crate) proof fn lemma_name_end_skips(b: Seq<u8>, i: int, j: int)
    requires
        0 <= i <= j <= b.len(),
        forall|k: int| i <= k < j ==> b[k] != 0,
    ensures
        name_end(b, i) == name_end(b, j),
    decreases j - i,
{
    if i < j {
        lemma_name_end_skips(b, i + 1, j);
    }
}

/// Resolving the offset at which a zero-terminated text was written into a
/// string table gives back exactly that text.
pub proof fn lemma_resolve_name_round_trip(
    strtab: Elf64Shdr,
    buf: Seq<u8>,
    name_idx: u32,
    text: Seq<u8>,
)
    requires
        strtab.sh_type == SHT_STRTAB,
        strtab.in_bounds(buf),
        name_idx + text.len() < strtab.sh_size,
        valid_utf8(text),
        forall|k: int| 0 <= k < text.len() ==> text[k] != 0,
        strtab.bytes(buf).subrange(name_idx as int, name_idx + text.len() + 1) == text.push(0),
    ensures
        strtab.resolved_name(buf, name_idx) == Ok::<Seq<u8>, ElfError>(text),
{
    let b = strtab.bytes(buf);
    let i = name_idx as int;
    let j = i + text.len();
    assert forall|k: int| i <= k < j implies b[k] != 0 by {
        assert(b[k] == b.subrange(i, j + 1)[k - i]);
    }
    assert(b[j] == b.subrange(i, j + 1)[j - i]);
    lemma_name_end_skips(b, i, j);
    assert(strtab.name_bytes(buf, name_idx) =~= text);
}

impl Elf64Shdr {
    /// Whether the section's bytes `[sh_offset, sh_offset + sh_size)` lie in `buf`.
    pub open spec fn in_bounds(&self, buf: Seq<u8>) -> bool {
        self.sh_offset + self.sh_size <= buf.len()
    }

    /// The section's own bytes.
    pub open spec fn bytes(&self, buf: Seq<u8>) -> Seq<u8> {
        buf.subrange(self.sh_offset as int, self.sh_offset + self.sh_size)
    }

    /// The section as records of type `T`, as many as fit in its size.
    pub open spec fn spec_section_as_slice<T: ElfRecord>(&self, buf: Seq<u8>) -> Result<
        Seq<T>,
        ElfError,
    > {
        if !self.in_bounds(buf) {
            Err(ElfError::OutOfBounds)
        } else if self.sh_size as nat % T::spec_size() != 0 {
            Err(ElfError::UnevenSize)
        } else {
            spec_read_table::<T>(buf, self.sh_offset as int, self.sh_size as nat / T::spec_size())
        }
    }

    /// The section as a table of entries of type `T`, whose declared entry size
    /// must be the size of `T` and must divide the section's size.
    pub open spec fn spec_table<T: ElfRecord>(&self, buf: Seq<u8>) -> Result<Seq<T>, ElfError> {
        if self.sh_entsize != T::spec_size() {
            Err(ElfError::EntrySizeMismatch)
        } else if !self.in_bounds(buf) {
            Err(ElfError::OutOfBounds)
        } else if self.sh_size as nat % T::spec_size() != 0 {
            Err(ElfError::UnevenSize)
        } else {
            spec_read_table::<T>(buf, self.sh_offset as int, self.sh_size as nat / T::spec_size())
        }
    }

    /// The bytes of the name at `name_idx` in this string table: from there up
    /// to the first zero byte or the end of the section.
    pub open spec fn name_bytes(&self, buf: Seq<u8>, name_idx: u32) -> Seq<u8> {
        let b = self.bytes(buf);
        b.subrange(name_idx as int, name_end(b, name_idx as int))
    }

    /// The name at `name_idx` when this section is a string table.
    pub open spec fn resolved_name(&self, buf: Seq<u8>, name_idx: u32) -> Result<
        Seq<u8>,
        ElfError,
    > {
        if self.sh_type != SHT_STRTAB {
            Err(ElfError::NotStringTable)
        } else if !self.in_bounds(buf) {
            Err(ElfError::OutOfBounds)
        } else if name_idx > self.sh_size {
            Err(ElfError::NameOutOfRange)
        } else if !valid_utf8(self.name_bytes(buf, name_idx)) {
            Err(ElfError::BadText)
        } else {
            Ok(self.name_bytes(buf, name_idx))
        }
    }

    /// Decodes the section as records of type `T`, `sh_size / size_of(T)` of them.
    pub fn get_section_as_slice<T: ElfRecord>(&self, buf: &[u8]) -> (r: Result<Vec<T>, ElfError>)
        ensures
            match r {
                Ok(v) => self.spec_section_as_slice::<T>(buf@) == Ok::<Seq<T>, ElfError>(v@),
                Err(e) => self.spec_section_as_slice::<T>(buf@) == Err::<Seq<T>, ElfError>(e),
            },
    {
        proof {
            lemma_len_fits(buf);
        }
        if self.sh_offset > buf.len() as u64 || self.sh_size > buf.len() as u64 - self.sh_offset {
            return Err(ElfError::OutOfBounds);
        }
        let size = T::size() as u64;
        if self.sh_size % size != 0 {
            return Err(ElfError::UnevenSize);
        }
        read_table::<T>(buf, self.sh_offset, self.sh_size / size)
    }

    /// Resolves the name at byte offset `name_idx` of this string table.
    pub fn get_name<'a>(&self, buf: &'a [u8], name_idx: Elf64Word) -> (r: Result<
        &'a str,
        ElfError,
    >)
        ensures
            match r {
                Ok(s) => self.resolved_name(buf@, name_idx) == Ok::<Seq<u8>, ElfError>(
                    s.spec_bytes(),
                ),
                Err(e) => self.resolved_name(buf@, name_idx) == Err::<Seq<u8>, ElfError>(e),
            },
    {
        proof {
            lemma_len_fits(buf);
        }
        if self.sh_type != SHT_STRTAB {
            return Err(ElfError::NotStringTable);
        }
        if self.sh_offset > buf.len() as u64 || self.sh_size > buf.len() as u64 - self.sh_offset {
            return Err(ElfError::OutOfBounds);
        }
        if name_idx as u64 > self.sh_size {
            return Err(ElfError::NameOutOfRange);
        }
        let start = self.sh_offset as usize;
        let section = &buf[start..start + self.sh_size as usize];
        let begin = name_idx as usize;
        let mut end = begin;
        while end < section.len() && section[end] != 0
            invariant
                begin <= end <= section@.len(),
                name_end(section@, begin as int) == name_end(section@, end as int),
            decreases section@.len() - end,
        {
            end += 1;
        }
        assert(name_end(section@, end as int) == end);
        let name = &section[begin..end];
        assert(name@ =~= self.name_bytes(buf@, name_idx));
        match utf8_text(name) {
            Some(s) => Ok(s),
            None => Err(ElfError::BadText),
        }
    }

    /// Decodes the section as a table of entries of type `T`, after checking
    /// that its declared entry size is the size of `T`. Where it is, the table
    /// is the section's typed view.
    pub fn get_table<T: ElfRecord>(&self, buf: &[u8]) -> (r: Result<Vec<T>, ElfError>)
        ensures
            match r {
                Ok(v) => self.spec_table::<T>(buf@) == Ok::<Seq<T>, ElfError>(v@),
                Err(e) => self.spec_table::<T>(buf@) == Err::<Seq<T>, ElfError>(e),
            },
            self.sh_entsize != T::spec_size() ==> r == Err::<Vec<T>, ElfError>(
                ElfError::EntrySizeMismatch,
            ),
            self.sh_entsize == T::spec_size() ==> self.spec_table::<T>(buf@)
                == self.spec_section_as_slice::<T>(buf@),
    {
        proof {
            lemma_len_fits(buf);
        }
        let size = T::size();
        if self.sh_entsize != size as u64 {
            return Err(ElfError::EntrySizeMismatch);
        }
        if self.sh_offset > buf.len() as u64 || self.sh_size > buf.len() as u64 - self.sh_offset {
            return Err(ElfError::OutOfBounds);
        }
        if self.sh_size % self.sh_entsize != 0 {
            return Err(ElfError::UnevenSize);
        }
        read_table::<T>(buf, self.sh_offset, self.sh_size / self.sh_entsize)
    }
}

impl ElfRecord for Elf64Shdr {
    open spec fn spec_size() -> nat {
        64
    }

    open spec fn spec_decode(b: Seq<u8>, off: int) -> Self {
        Elf64Shdr {
            sh_name: le_u32_at(b, off),
            sh_type: le_u32_at(b, off + 4),
            sh_flags: le_u64_at(b, off + 8),
            sh_addr: le_u64_at(b, off + 16),
            sh_offset: le_u64_at(b, off + 24),
            sh_size: le_u64_at(b, off + 32),
            sh_link: le_u32_at(b, off + 40),
            sh_info: le_u32_at(b, off + 44),
            sh_addralign: le_u64_at(b, off + 48),
            sh_entsize: le_u64_at(b, off + 56),
        }
    }

    fn size() -> (r: usize) {
        64
    }

    fn decode(buf: &[u8], off: usize) -> (r: Self) {
        proof {
            lemma_len_fits(buf);
        }
        Elf64Shdr {
            sh_name: read_u32(buf, off),
            sh_type: read_u32(buf, off + 4),
            sh_flags: read_u64(buf, off + 8),
            sh_addr: read_u64(buf, off + 16),
            sh_offset: read_u64(buf, off + 24),
            sh_size: read_u64(buf, off + 32),
            sh_link: read_u32(buf, off + 40),
            sh_info: read_u32(buf, off + 44),
            sh_addralign: read_u64(buf, off + 48),
            sh_entsize: read_u64(buf, off + 56),
        }
    }
}

/// Section header table entry unused
pub const SHT_NULL: Elf64Word = 0;

/// Program data
pub const SHT_PROGBITS: Elf64Word = 1;

/// Symbol table
pub const SHT_SYMTAB: Elf64Word = 2;

/// String table
pub const SHT_STRTAB: Elf64Word = 3;

/// Relocation entries with addends
pub const SHT_RELA: Elf64Word = 4;

/// Symbol hash table
pub const SHT_HASH: Elf64Word = 5;

/// Dynamic linking information
pub const SHT_DYNAMIC: Elf64Word = 6;

/// Notes
pub const SHT_NOTE: Elf64Word = 7;

/// Program space with no data (bss)
pub const SHT_NOBITS: Elf64Word = 8;

/// Relocation entries, no addends
pub const SHT_REL: Elf64Word = 9;

/// Reserved
pub const SHT_SHLIB: Elf64Word = 10;

/// Dynamic linker symbol table
pub const SHT_DYNSYM: Elf64Word = 11;

/// Array of constructors
pub const SHT_INIT_ARRAY: Elf64Word = 14;

/// Array of destructors
pub const SHT_FINI_ARRAY: Elf64Word = 15;

/// Array of pre-constructors
pub const SHT_PREINIT_ARRAY: Elf64Word = 16;

/// Section group
pub const SHT_GROUP: Elf64Word = 17;

/// Extended section indices
pub const SHT_SYMTAB_SHNDX: Elf64Word = 18;

/// Number of defined types.
pub const SHT_NUM: Elf64Word = 19;

/// Start OS-specific.
pub const SHT_LOOS: Elf64Word = 0x60000000;

/// Object attributes.
pub const SHT_GNU_ATTRIBUTE: Elf64Word = 0x6ffffff5;

/// GNU-style hash table.
pub const SHT_GNU_HASH: Elf64Word = 0x6ffffff6;

/// Prelink library list
pub const SHT_GNU_LIBLIST: Elf64Word = 0x6ffffff7;

/// Checksum for DSO content.
pub const SHT_CHECKSUM: Elf64Word = 0x6ffffff8;

/// Sun-specific low bound.
pub const SHT_LOSUNW: Elf64Word = 0x6ffffffa;

pub const SHT_SUNW_MOVE: Elf64Word = 0x6ffffffa;

pub const SHT_SUNW_COMDAT: Elf64Word = 0x6ffffffb;

pub const SHT_SUNW_SYMINFO: Elf64Word = 0x6ffffffc;

/// Version definition section.
pub const SHT_GNU_VERDEF: Elf64Word = 0x6ffffffd;

/// Version needs section.
pub const SHT_GNU_VERNEED: Elf64Word = 0x6ffffffe;

/// Version symbol table.
pub const SHT_GNU_VERSYM: Elf64Word = 0x6fffffff;

/// Sun-specific high bound.
pub const SHT_HISUNW: Elf64Word = 0x6fffffff;

/// End OS-specific type
pub const SHT_HIOS: Elf64Word = 0x6fffffff;

/// Start of processor-specific
pub const SHT_LOPROC: Elf64Word = 0x70000000;

/// End of processor-specific
pub const SHT_HIPROC: Elf64Word = 0x7fffffff;

/// Start of application-specific
pub const SHT_LOUSER: Elf64Word = 0x80000000;

/// End of application-specific
pub const SHT_HIUSER: Elf64Word = 0x8fffffff;

} // verus!
