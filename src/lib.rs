//! Navigation of ELF64 object files held in a byte buffer: the file header,
//! the section and segment tables, symbols, relocations and section names.
//! Multi-byte fields are read little-endian.
use vstd::prelude::*;

pub mod bytes;
pub mod error;
pub mod record;
pub mod phdr;
pub mod rela;
pub mod shdr;
pub mod sym;

use crate::bytes::{le_u16_at, le_u32_at, le_u64_at, lemma_len_fits, read_u16, read_u32, read_u64};
use crate::record::{read_table, spec_read_table};
use crate::shdr::SHT_STRTAB;
use crate::shdr::{lemma_name_end_skips, name_end};
use vstd::string::StringSliceAdditionalSpecFns;
use vstd::utf8::{partial_valid_utf8_extend_ascii_block, valid_utf8};

pub use error::ElfError;
pub use phdr::Elf64Phdr;
pub use rela::Elf64Rela;
pub use shdr::Elf64Shdr;
pub use sym::Elf64Sym;

verus! {

/// Type for a 16-bit quantity.
pub type Elf32Half = u16;

pub type Elf64Half = u16;

/// Types for signed and unsigned 32-bit quantities.
pub type Elf32Word = u32;

pub type Elf32Sword = i32;

pub type Elf64Word = u32;

pub type Elf64Sword = i32;

/// Types for signed and unsigned 64-bit quantities.
pub type Elf32Xword = u64;

pub type Elf32Sxword = i64;

pub type Elf64Xword = u64;

pub type Elf64Sxword = i64;

/// Type of addresses.
pub type Elf32Addr = u32;

pub type Elf64Addr = u64;

/// Type of file offsets.
pub type Elf32Off = u32;

pub type Elf64Off = u64;

/// Type for section indices, which are 16-bit quantities.
pub type Elf32Section = u16;

pub type Elf64Section = u16;

/// Type for version symbol information.
pub type Elf32Versym = Elf32Half;

pub type Elf64Versym = Elf64Half;


/// Length of the identification block at the start of the file header.
pub const EI_NIDENT: usize = 16;

/// Size of the file header in bytes.
pub const EHDR_SIZE: usize = 64;

/// Indices of the four signature bytes in `e_ident`.
pub const EI_MAG: [usize; 4] = [0, 1, 2, 3];

/// The ELF signature: `0x7f`, `E`, `L`, `F`.
pub const ELFMAG: [u8; 4] = [0x7f, 0x45, 0x4c, 0x46];

/// The ELF file header. This appears at the start of every ELF file.
#[derive(Clone, Copy, Debug)]
pub struct Elf64Ehdr {
    /// Magic number and other info
    pub e_ident: [u8; EI_NIDENT],
    /// Object file type
    pub e_type: Elf64Half,
    /// Architecture
    pub e_machine: Elf64Half,
    /// Object file version
    pub e_version: Elf64Word,
    /// Entry point virtual address
    pub e_entry: Elf64Addr,
    /// Program header table file offset
    pub e_phoff: Elf64Off,
    /// Section header table file offset
    pub e_shoff: Elf64Off,
    /// Processor-specific flags
    pub e_flags: Elf64Word,
    /// ELF header size in bytes
    pub e_ehsize: Elf64Half,
    /// Program header table entry size
    pub e_phentsize: Elf64Half,
    /// Program header table entry count
    pub e_phnum: Elf64Half,
    /// Section header table entry size
    pub e_shentsize: Elf64Half,
    /// Section header table entry count
    pub e_shnum: Elf64Half,
    /// Section header string table index
    pub e_shstrndx: Elf64Half,
}

/// Whether `b` starts with the ELF signature.
pub open spec fn has_magic(b: Seq<u8>) -> bool {
    &&& b.len() >= 4
    &&& b[0] == 0x7f
    &&& b[1] == 0x45
    &&& b[2] == 0x4c
    &&& b[3] == 0x46
}

/// Whether the name of the section with header `sh` resolves in `strtab` to
/// something other than `q`.
pub open spec fn named_otherwise(strtab: Elf64Shdr, buf: Seq<u8>, sh: Elf64Shdr, q: Seq<u8>) -> bool {
    match strtab.resolved_name(buf, sh.sh_name) {
        Ok(n) => n != q,
        Err(_) => false,
    }
}

/// Scans `t` from index `i` for the first section named `q`, stopping with the
/// error of the first name that does not resolve.
pub open spec fn find_named(
    t: Seq<Elf64Shdr>,
    strtab: Elf64Shdr,
    buf: Seq<u8>,
    q: Seq<u8>,
    i: int,
) -> Result<Option<Elf64Shdr>, ElfError>
    decreases t.len() - i,
{
    if 0 <= i < t.len() {
        match strtab.resolved_name(buf, t[i].sh_name) {
            Err(e) => Err(e),
            Ok(n) => if n == q {
                Ok(Some(t[i]))
            } else {
                find_named(t, strtab, buf, q, i + 1)
            },
        }
    } else {
        Ok(None)
    }
}

proof fn lemma_find_named(t: Seq<Elf64Shdr>, strtab: Elf64Shdr, buf: Seq<u8>, q: Seq<u8>, i: int)
    requires
        0 <= i <= t.len(),
    ensures
        match find_named(t, strtab, buf, q, i) {
            Ok(None) => forall|j: int|
                i <= j < t.len() ==> named_otherwise(strtab, buf, #[trigger] t[j], q),
            Ok(Some(s)) => exists|k: int|
                i <= k < t.len() && #[trigger] t[k] == s && section_named(strtab, buf, s, q)
                    && forall|j: int|
                    i <= j < k ==> named_otherwise(strtab, buf, #[trigger] t[j], q),
            Err(e) => exists|k: int|
                i <= k < t.len() && strtab.resolved_name(buf, (#[trigger] t[k]).sh_name) == Err::<
                    Seq<u8>,
                    ElfError,
                >(e) && forall|j: int|
                    i <= j < k ==> named_otherwise(strtab, buf, #[trigger] t[j], q),
        },
    decreases t.len() - i,
{
    if i < t.len() {
        lemma_find_named(t, strtab, buf, q, i + 1);
        match strtab.resolved_name(buf, t[i].sh_name) {
            Err(e) => {
                assert(t[i] == t[i]);
            },
            Ok(n) => if n == q {
                assert(t[i] == t[i]);
            } else {
                assert(named_otherwise(strtab, buf, t[i], q));
                match find_named(t, strtab, buf, q, i + 1) {
                    Ok(None) => {},
                    Ok(Some(s)) => {
                        let k = choose|k: int|
                            i + 1 <= k < t.len() && #[trigger] t[k] == s && section_named(
                                strtab,
                                buf,
                                s,
                                q,
                            ) && forall|j: int|
                                i + 1 <= j < k ==> named_otherwise(strtab, buf, #[trigger] t[j], q);
                        assert(t[k] == s);
                    },
                    Err(e) => {
                        let k = choose|k: int|
                            i + 1 <= k < t.len() && strtab.resolved_name(
                                buf,
                                (#[trigger] t[k]).sh_name,
                            ) == Err::<Seq<u8>, ElfError>(e) && forall|j: int|
                                i + 1 <= j < k ==> named_otherwise(strtab, buf, #[trigger] t[j], q);
                        assert(t[k] == t[k]);
                    },
                }
            },
        }
    }
}

/// Looking a section up by name yields the first section, by index, whose name
/// resolves to the query, with every earlier name resolving to something else.
/// It yields nothing only when every name resolves to something else. It fails
/// with the error of a name that does not resolve only when every earlier name
/// resolves to something else.
pub proof fn lemma_find_section_first_match(h: Elf64Ehdr, buf: Seq<u8>, q: Seq<u8>)
    requires
        h.spec_lookup_tables(buf) is Ok,
    ensures
        ({
            let (t, strtab) = h.spec_lookup_tables(buf)->Ok_0;
            match h.spec_find_section(buf, q) {
                Ok(None) => forall|j: int|
                    0 <= j < t.len() ==> named_otherwise(strtab, buf, #[trigger] t[j], q),
                Ok(Some(s)) => exists|k: int|
                    0 <= k < t.len() && #[trigger] t[k] == s && section_named(strtab, buf, s, q)
                        && forall|j: int|
                        0 <= j < k ==> named_otherwise(strtab, buf, #[trigger] t[j], q),
                Err(e) => exists|k: int|
                    0 <= k < t.len() && strtab.resolved_name(buf, (#[trigger] t[k]).sh_name)
                        == Err::<Seq<u8>, ElfError>(e) && forall|j: int|
                        0 <= j < k ==> named_otherwise(strtab, buf, #[trigger] t[j], q),
            }
        }),
{
    let (t, strtab) = h.spec_lookup_tables(buf)->Ok_0;
    lemma_find_named(t, strtab, buf, q, 0);
}

proof fn lemma_ascii_is_utf8(b: Seq<u8>)
    requires
        forall|k: int| 0 <= k < b.len() ==> b[k] < 0x80,
    ensures
        valid_utf8(b),
{
    assert(valid_utf8(b.subrange(0, 0)));
    partial_valid_utf8_extend_ascii_block(b, 0, b.len() as int);
    assert(b.subrange(0, b.len() as int) =~= b);
}

/// The bytes `.text\0.data\0`.
pub open spec fn text_data_names() -> Seq<u8> {
    seq![0x2eu8, 0x74, 0x65, 0x78, 0x74, 0, 0x2e, 0x64, 0x61, 0x74, 0x61, 0]
}

/// The bytes `.data`.
pub open spec fn data_name() -> Seq<u8> {
    seq![0x2eu8, 0x64, 0x61, 0x74, 0x61]
}

proof fn lemma_text_data_name(strtab: Elf64Shdr, buf: Seq<u8>, o: u32)
    requires
        strtab.sh_type == SHT_STRTAB,
        strtab.in_bounds(buf),
        strtab.bytes(buf) == text_data_names(),
        o <= 12,
    ensures
        strtab.resolved_name(buf, o) is Ok,
        strtab.resolved_name(buf, o)->Ok_0 == data_name() <==> o == 6,
{
    let b = strtab.bytes(buf);
    let oi = o as int;
    assert(b.len() == 12);
    let end = if oi <= 5 {
        5int
    } else if oi <= 11 {
        11int
    } else {
        12int
    };
    lemma_name_end_skips(b, oi, end);
    assert(name_end(b, end) == end);
    let n = b.subrange(oi, end);
    assert(strtab.name_bytes(buf, o) == n);
    lemma_ascii_is_utf8(n);
    if o == 6 {
        assert(n =~= data_name());
    } else if oi == 0 {
        assert(n[1] != data_name()[1]);
    } else {
        assert(n.len() != 5);
    }
}

proof fn lemma_find_data_from(t: Seq<Elf64Shdr>, strtab: Elf64Shdr, buf: Seq<u8>, k: int, j: int)
    requires
        strtab.sh_type == SHT_STRTAB,
        strtab.in_bounds(buf),
        strtab.bytes(buf) == text_data_names(),
        0 <= k <= j < t.len(),
        t[j].sh_name == 6,
        forall|i: int| k <= i < j ==> (#[trigger] t[i]).sh_name <= 12,
    ensures
        find_named(t, strtab, buf, data_name(), k) matches Ok(Some(s)) && s.sh_name == 6,
    decreases j - k,
{
    lemma_text_data_name(strtab, buf, t[k].sh_name);
    if t[k].sh_name != 6 {
        lemma_find_data_from(t, strtab, buf, k + 1, j);
    }
}

/// With the section-name string table holding `.text\0.data\0`, and every
/// section up to one whose name offset is 6 naming an offset inside that
/// table, looking up `.data` yields a section whose name offset is 6.
pub proof fn lemma_find_data_section(h: Elf64Ehdr, buf: Seq<u8>, j: int)
    requires
        h.spec_lookup_tables(buf) is Ok,
        h.spec_lookup_tables(buf)->Ok_0.1.bytes(buf) == text_data_names(),
        0 <= j < h.spec_lookup_tables(buf)->Ok_0.0.len(),
        h.spec_lookup_tables(buf)->Ok_0.0[j].sh_name == 6,
        forall|i: int| 0 <= i < j ==> (#[trigger] h.spec_lookup_tables(buf)->Ok_0.0[i]).sh_name <= 12,
    ensures
        h.spec_find_section(buf, data_name()) matches Ok(Some(s)) && s.sh_name == 6,
{
    let (t, strtab) = h.spec_lookup_tables(buf)->Ok_0;
    lemma_find_data_from(t, strtab, buf, 0, j);
}

/// Whether the section with header `sh` is named `q` in the string table `strtab`.
pub open spec fn section_named(strtab: Elf64Shdr, buf: Seq<u8>, sh: Elf64Shdr, q: Seq<u8>) -> bool {
    strtab.resolved_name(buf, sh.sh_name) == Ok::<Seq<u8>, ElfError>(q)
}

fn bytes_equal(a: &[u8], b: &[u8]) -> (r: bool)
    ensures
        r == (a@ == b@),
{
    if a.len() != b.len() {
        return false;
    }
    let mut i: usize = 0;
    while i < a.len()
        invariant
            a@.len() == b@.len(),
            i <= a@.len(),
            forall|k: int| 0 <= k < i ==> a@[k] == b@[k],
        decreases a@.len() - i,
    {
        if a[i] != b[i] {
            return false;
        }
        i += 1;
    }
    assert(a@ =~= b@);
    true
}

/// In a well-formed buffer the section table has exactly `e_shnum` descriptors,
/// and the bytes of every section lie in the buffer.
pub proof fn lemma_well_formed_sections(h: Elf64Ehdr, buf: Seq<u8>)
    requires
        h.well_formed(buf),
    ensures
        match h.spec_sht(buf) {
            Ok(t) => t.len() == h.e_shnum && forall|i: int|
                0 <= i < t.len() ==> (#[trigger] t[i]).in_bounds(buf),
            Err(_) => false,
        },
{
    let t = h.spec_sht(buf)->Ok_0;
    assert forall|i: int| 0 <= i < t.len() implies (#[trigger] t[i]).in_bounds(buf) by {
        assert(0 <= i < h.e_shnum);
    }
}

impl Elf64Ehdr {
    /// Whether this header holds the fields stored at the start of `b`.
    pub open spec fn decoded_from(&self, b: Seq<u8>) -> bool {
        &&& b.len() >= EHDR_SIZE
        &&& self.e_ident@ == b.subrange(0, EI_NIDENT as int)
        &&& self.e_type == le_u16_at(b, 16)
        &&& self.e_machine == le_u16_at(b, 18)
        &&& self.e_version == le_u32_at(b, 20)
        &&& self.e_entry == le_u64_at(b, 24)
        &&& self.e_phoff == le_u64_at(b, 32)
        &&& self.e_shoff == le_u64_at(b, 40)
        &&& self.e_flags == le_u32_at(b, 48)
        &&& self.e_ehsize == le_u16_at(b, 52)
        &&& self.e_phentsize == le_u16_at(b, 54)
        &&& self.e_phnum == le_u16_at(b, 56)
        &&& self.e_shentsize == le_u16_at(b, 58)
        &&& self.e_shnum == le_u16_at(b, 60)
        &&& self.e_shstrndx == le_u16_at(b, 62)
    }

    /// The section table: `e_shnum` descriptors from `e_shoff`.
    pub open spec fn spec_sht(&self, buf: Seq<u8>) -> Result<Seq<Elf64Shdr>, ElfError> {
        spec_read_table::<Elf64Shdr>(buf, self.e_shoff as int, self.e_shnum as nat)
    }

    /// The segment table: `e_phnum` descriptors from `e_phoff`.
    pub open spec fn spec_pht(&self, buf: Seq<u8>) -> Result<Seq<Elf64Phdr>, ElfError> {
        spec_read_table::<Elf64Phdr>(buf, self.e_phoff as int, self.e_phnum as nat)
    }

    /// The descriptor at index `e_shstrndx` of the section table.
    pub open spec fn spec_shstrtab(&self, buf: Seq<u8>) -> Result<Elf64Shdr, ElfError> {
        match self.spec_sht(buf) {
            Err(e) => Err(e),
            Ok(t) => if self.e_shstrndx < t.len() {
                Ok(t[self.e_shstrndx as int])
            } else {
                Err(ElfError::BadSectionIndex)
            },
        }
    }

    /// The section table together with a section-name string table whose bytes
    /// lie in the buffer, as a name lookup needs them.
    pub open spec fn spec_lookup_tables(&self, buf: Seq<u8>) -> Result<
        (Seq<Elf64Shdr>, Elf64Shdr),
        ElfError,
    > {
        match self.spec_sht(buf) {
            Err(e) => Err(e),
            Ok(t) => match self.spec_shstrtab(buf) {
                Err(e) => Err(e),
                Ok(s) => if s.sh_type != SHT_STRTAB {
                    Err(ElfError::NotStringTable)
                } else if !s.in_bounds(buf) {
                    Err(ElfError::OutOfBounds)
                } else {
                    Ok((t, s))
                },
            },
        }
    }

    /// Whether the header at the start of `buf` is signed, its section table lies
    /// in `buf`, and so do the bytes of every section.
    pub open spec fn well_formed(&self, buf: Seq<u8>) -> bool {
        &&& self.decoded_from(buf)
        &&& has_magic(buf)
        &&& self.spec_sht(buf) is Ok
        &&& forall|i: int|
            0 <= i < self.e_shnum ==> {
                let sh = #[trigger] self.spec_sht(buf)->Ok_0[i];
                sh.in_bounds(buf)
            }
    }

    /// Reads the file header at the start of `buf`, refusing a buffer too short
    /// to hold one and a buffer that does not start with the ELF signature.
    pub fn parse(buf: &[u8]) -> (r: Result<Elf64Ehdr, ElfError>)
        ensures
            buf@.len() < EHDR_SIZE ==> r == Err::<Elf64Ehdr, ElfError>(ElfError::Truncated),
            buf@.len() >= EHDR_SIZE && !has_magic(buf@) ==> r == Err::<Elf64Ehdr, ElfError>(
                ElfError::BadMagic,
            ),
            r is Ok <==> buf@.len() >= EHDR_SIZE && has_magic(buf@),
            r matches Ok(h) ==> h.decoded_from(buf@),
    {
        proof {
            lemma_len_fits(buf);
        }
        if buf.len() < EHDR_SIZE {
            return Err(ElfError::Truncated);
        }
        if buf[EI_MAG[0]] != ELFMAG[0] || buf[EI_MAG[1]] != ELFMAG[1] || buf[EI_MAG[2]]
            != ELFMAG[2] || buf[EI_MAG[3]] != ELFMAG[3] {
            return Err(ElfError::BadMagic);
        }
        let e_ident: [u8; EI_NIDENT] = [
            buf[0],
            buf[1],
            buf[2],
            buf[3],
            buf[4],
            buf[5],
            buf[6],
            buf[7],
            buf[8],
            buf[9],
            buf[10],
            buf[11],
            buf[12],
            buf[13],
            buf[14],
            buf[15],
        ];
        assert(e_ident@ =~= buf@.subrange(0, EI_NIDENT as int));
        Ok(
            Elf64Ehdr {
                e_ident,
                e_type: read_u16(buf, 16),
                e_machine: read_u16(buf, 18),
                e_version: read_u32(buf, 20),
                e_entry: read_u64(buf, 24),
                e_phoff: read_u64(buf, 32),
                e_shoff: read_u64(buf, 40),
                e_flags: read_u32(buf, 48),
                e_ehsize: read_u16(buf, 52),
                e_phentsize: read_u16(buf, 54),
                e_phnum: read_u16(buf, 56),
                e_shentsize: read_u16(buf, 58),
                e_shnum: read_u16(buf, 60),
                e_shstrndx: read_u16(buf, 62),
            },
        )
    }

    /// Reads the file header at the start of `buf` and checks, once for all later
    /// navigation, that its section table and the bytes of every section lie
    /// inside `buf`.
    pub fn validate(buf: &[u8]) -> (r: Result<Elf64Ehdr, ElfError>)
        ensures
            buf@.len() < EHDR_SIZE ==> r == Err::<Elf64Ehdr, ElfError>(ElfError::Truncated),
            buf@.len() >= EHDR_SIZE && !has_magic(buf@) ==> r == Err::<Elf64Ehdr, ElfError>(
                ElfError::BadMagic,
            ),
            r matches Ok(h) ==> h.well_formed(buf@),
            r is Err ==> forall|h: Elf64Ehdr| !#[trigger] h.well_formed(buf@),
    {
        proof {
            lemma_len_fits(buf);
        }
        let hdr = match Elf64Ehdr::parse(buf) {
            Ok(h) => h,
            Err(e) => return Err(e),
        };
        let table = match hdr.get_sht(buf) {
            Ok(t) => t,
            Err(e) => return Err(e),
        };
        let mut i: usize = 0;
        while i < table.len()
            invariant
                hdr.decoded_from(buf@),
                has_magic(buf@),
                hdr.spec_sht(buf@) == Ok::<Seq<Elf64Shdr>, ElfError>(table@),
                buf@.len() <= usize::MAX,
                i <= table@.len(),
                forall|j: int|
                    0 <= j < i ==> {
                        let sh = #[trigger] table@[j];
                        sh.in_bounds(buf@)
                    },
            decreases table@.len() - i,
        {
            let sh = table[i];
            if sh.sh_offset > buf.len() as u64 || sh.sh_size > buf.len() as u64 - sh.sh_offset {
                assert forall|h: Elf64Ehdr| !#[trigger] h.well_formed(buf@) by {
                    if h.well_formed(buf@) {
                        assert(h.spec_sht(buf@) == hdr.spec_sht(buf@));
                        assert(h.spec_sht(buf@)->Ok_0[i as int] == sh);
                    }
                }
                return Err(ElfError::OutOfBounds);
            }
            i += 1;
        }
        Ok(hdr)
    }

    /// The section table: `e_shnum` section descriptors read from `e_shoff`.
    pub fn get_sht(&self, buf: &[u8]) -> (r: Result<Vec<Elf64Shdr>, ElfError>)
        ensures
            match r {
                Ok(v) => self.spec_sht(buf@) == Ok::<Seq<Elf64Shdr>, ElfError>(v@),
                Err(e) => self.spec_sht(buf@) == Err::<Seq<Elf64Shdr>, ElfError>(e),
            },
    {
        read_table::<Elf64Shdr>(buf, self.e_shoff, self.e_shnum as u64)
    }

    /// The segment table: `e_phnum` segment descriptors read from `e_phoff`.
    pub fn get_pht(&self, buf: &[u8]) -> (r: Result<Vec<Elf64Phdr>, ElfError>)
        ensures
            match r {
                Ok(v) => self.spec_pht(buf@) == Ok::<Seq<Elf64Phdr>, ElfError>(v@),
                Err(e) => self.spec_pht(buf@) == Err::<Seq<Elf64Phdr>, ElfError>(e),
            },
    {
        read_table::<Elf64Phdr>(buf, self.e_phoff, self.e_phnum as u64)
    }

    /// The section-name string table's descriptor, at index `e_shstrndx`.
    pub fn get_shstrtab_hdr(&self, buf: &[u8]) -> (r: Result<Elf64Shdr, ElfError>)
        ensures
            match r {
                Ok(s) => self.spec_shstrtab(buf@) == Ok::<Elf64Shdr, ElfError>(s),
                Err(e) => self.spec_shstrtab(buf@) == Err::<Elf64Shdr, ElfError>(e),
            },
    {
        let table = match self.get_sht(buf) {
            Ok(t) => t,
            Err(e) => return Err(e),
        };
        let idx = self.e_shstrndx as usize;
        if idx < table.len() {
            Ok(table[idx])
        } else {
            Err(ElfError::BadSectionIndex)
        }
    }

    /// The outcome of looking up the section named `q`.
    pub open spec fn spec_find_section(&self, buf: Seq<u8>, q: Seq<u8>) -> Result<
        Option<Elf64Shdr>,
        ElfError,
    > {
        match self.spec_lookup_tables(buf) {
            Err(e) => Err(e),
            Ok((t, strtab)) => find_named(t, strtab, buf, q, 0),
        }
    }

    /// Finds the first section, by index, whose name is `name`. A name that fails
    /// to resolve before any match is reported as that failure.
    pub fn get_she(&self, buf: &[u8], name: &str) -> (r: Result<Option<Elf64Shdr>, ElfError>)
        ensures
            r == self.spec_find_section(buf@, name.spec_bytes()),
    {
        proof {
            lemma_len_fits(buf);
        }
        let table = match self.get_sht(buf) {
            Ok(t) => t,
            Err(e) => return Err(e),
        };
        let idx = self.e_shstrndx as usize;
        if idx >= table.len() {
            return Err(ElfError::BadSectionIndex);
        }
        let strtab = table[idx];
        if strtab.sh_type != SHT_STRTAB {
            return Err(ElfError::NotStringTable);
        }
        if strtab.sh_offset > buf.len() as u64 || strtab.sh_size > buf.len() as u64
            - strtab.sh_offset {
            return Err(ElfError::OutOfBounds);
        }
        let query = name.as_bytes();
        let mut i: usize = 0;
        while i < table.len()
            invariant
                self.spec_lookup_tables(buf@) == Ok::<(Seq<Elf64Shdr>, Elf64Shdr), ElfError>(
                    (table@, strtab),
                ),
                query@ == name.spec_bytes(),
                i <= table@.len(),
                find_named(table@, strtab, buf@, query@, 0) == find_named(
                    table@,
                    strtab,
                    buf@,
                    query@,
                    i as int,
                ),
            decreases table@.len() - i,
        {
            let sh = table[i];
            match strtab.get_name(buf, sh.sh_name) {
                Ok(s) => {
                    if bytes_equal(s.as_bytes(), query) {
                        return Ok(Some(sh));
                    }
                },
                Err(e) => return Err(e),
            }
            i += 1;
        }
        Ok(None)
    }
}

} // verus!
