use elf64::phdr::{PF_R, PF_X, PT_LOAD};
use elf64::shdr::{SHT_NOBITS, SHT_PROGBITS, SHT_RELA, SHT_STRTAB, SHT_SYMTAB};
use elf64::{Elf64Ehdr, Elf64Phdr, Elf64Rela, Elf64Shdr, Elf64Sym, ElfError};

fn put_u16(b: &mut Vec<u8>, at: usize, v: u16) {
    b[at..at + 2].copy_from_slice(&v.to_le_bytes());
}

fn put_u32(b: &mut Vec<u8>, at: usize, v: u32) {
    b[at..at + 4].copy_from_slice(&v.to_le_bytes());
}

fn put_u64(b: &mut Vec<u8>, at: usize, v: u64) {
    b[at..at + 8].copy_from_slice(&v.to_le_bytes());
}

struct Sec {
    name: u32,
    kind: u32,
    offset: u64,
    size: u64,
    entsize: u64,
}

fn put_shdr(b: &mut Vec<u8>, at: usize, s: &Sec) {
    put_u32(b, at, s.name);
    put_u32(b, at + 4, s.kind);
    put_u64(b, at + 24, s.offset);
    put_u64(b, at + 32, s.size);
    put_u64(b, at + 56, s.entsize);
}

fn put_header(b: &mut Vec<u8>, shoff: u64, shnum: u16, shstrndx: u16) {
    b[0..4].copy_from_slice(&[0x7f, b'E', b'L', b'F']);
    b[4] = 2;
    b[5] = 1;
    b[6] = 1;
    put_u16(b, 16, 1);
    put_u16(b, 18, 62);
    put_u32(b, 20, 1);
    put_u16(b, 52, 64);
    put_u64(b, 40, shoff);
    put_u16(b, 58, 64);
    put_u16(b, 60, shnum);
    put_u16(b, 62, shstrndx);
}

const STRTAB: &[u8] = b".text\0.data\0";

/// Header; string table at 64; .text at 76; .data at 80; section headers at 88:
/// .text, .data, and the string table, whose name is the empty name at its end.
fn sample() -> Vec<u8> {
    let mut b = vec![0u8; 88 + 3 * 64];
    put_header(&mut b, 88, 3, 2);
    b[64..76].copy_from_slice(STRTAB);
    b[76..80].copy_from_slice(&[0x90, 0x90, 0x90, 0xc3]);
    b[80..84].copy_from_slice(&[1, 2, 3, 4]);
    put_shdr(&mut b, 88, &Sec { name: 0, kind: SHT_PROGBITS, offset: 76, size: 4, entsize: 0 });
    put_shdr(&mut b, 152, &Sec { name: 6, kind: SHT_PROGBITS, offset: 80, size: 4, entsize: 0 });
    put_shdr(&mut b, 216, &Sec { name: 12, kind: SHT_STRTAB, offset: 64, size: 12, entsize: 0 });
    b
}

fn strtab_hdr() -> Elf64Shdr {
    Elf64Shdr {
        sh_name: 0,
        sh_type: SHT_STRTAB,
        sh_flags: 0,
        sh_addr: 0,
        sh_offset: 64,
        sh_size: 12,
        sh_link: 0,
        sh_info: 0,
        sh_addralign: 1,
        sh_entsize: 0,
    }
}

#[test]
fn parse_reads_header_fields() {
    let b = sample();
    let h = Elf64Ehdr::parse(&b).unwrap();
    assert_eq!(&h.e_ident[0..4], &[0x7f, b'E', b'L', b'F']);
    assert_eq!(h.e_ident[4], 2);
    assert_eq!(h.e_type, 1);
    assert_eq!(h.e_machine, 62);
    assert_eq!(h.e_shoff, 88);
    assert_eq!(h.e_shnum, 3);
    assert_eq!(h.e_shstrndx, 2);
    assert_eq!(h.e_ehsize, 64);
}

#[test]
fn find_section_returns_data_descriptor() {
    let b = sample();
    assert_eq!(&b[0..4], &[0x7f, 0x45, 0x4c, 0x46]);
    let h = Elf64Ehdr::parse(&b).unwrap();
    let data = h.get_she(&b, ".data").unwrap().unwrap();
    assert_eq!(data.sh_name, 6);
    assert_eq!(data.sh_offset, 80);
    let text = h.get_she(&b, ".text").unwrap().unwrap();
    assert_eq!(text.sh_name, 0);
    assert_eq!(text.sh_offset, 76);
}

#[test]
fn find_section_not_found() {
    let b = sample();
    let h = Elf64Ehdr::parse(&b).unwrap();
    assert_eq!(h.get_she(&b, ".bss"), Ok(None));
    assert_eq!(h.get_she(&b, ".dat"), Ok(None));
    assert_eq!(h.get_she(&b, ".data\0"), Ok(None));
}

#[test]
fn find_section_empty_name_matches_string_table() {
    let b = sample();
    let h = Elf64Ehdr::parse(&b).unwrap();
    let s = h.get_she(&b, "").unwrap().unwrap();
    assert_eq!(s.sh_type, SHT_STRTAB);
    assert_eq!(s.sh_name, 12);
}

#[test]
fn find_section_takes_first_of_equal_names() {
    let mut b = sample();
    // The string table now also names itself ".data", after the real .data.
    put_u32(&mut b, 216, 6);
    let h = Elf64Ehdr::parse(&b).unwrap();
    let s = h.get_she(&b, ".data").unwrap().unwrap();
    assert_eq!(s.sh_type, SHT_PROGBITS);
    assert_eq!(s.sh_offset, 80);
    // Swapping the order makes the string table the first match.
    put_u32(&mut b, 152, 12);
    put_u32(&mut b, 88, 6);
    let s = h.get_she(&b, ".data").unwrap().unwrap();
    assert_eq!(s.sh_offset, 76);
}

#[test]
fn find_section_reports_bad_name_before_match() {
    let mut b = sample();
    // .text now names an offset past the end of the string table.
    put_u32(&mut b, 88, 13);
    let h = Elf64Ehdr::parse(&b).unwrap();
    assert_eq!(h.get_she(&b, ".data"), Err(ElfError::NameOutOfRange));
    // .text's name is now not valid UTF-8.
    put_u32(&mut b, 88, 0);
    b[65] = 0xff;
    assert_eq!(h.get_she(&b, ".data"), Err(ElfError::BadText));
}

#[test]
fn find_section_match_before_bad_name() {
    let mut b = sample();
    // .data now names an offset past the end, after the .text match.
    put_u32(&mut b, 152, 40);
    let h = Elf64Ehdr::parse(&b).unwrap();
    let s = h.get_she(&b, ".text").unwrap().unwrap();
    assert_eq!(s.sh_offset, 76);
    assert_eq!(h.get_she(&b, ".data"), Err(ElfError::NameOutOfRange));
}

#[test]
fn corrupted_magic_is_rejected() {
    let mut b = sample();
    b[0..4].copy_from_slice(&[0, 0, 0, 0]);
    assert_eq!(Elf64Ehdr::parse(&b).err(), Some(ElfError::BadMagic));
    assert_eq!(Elf64Ehdr::validate(&b).err(), Some(ElfError::BadMagic));
    b[0..4].copy_from_slice(&[0x7f, b'E', b'L', b'G']);
    assert_eq!(Elf64Ehdr::parse(&b).err(), Some(ElfError::BadMagic));
}

#[test]
fn short_buffer_is_truncated() {
    let b = sample();
    assert_eq!(Elf64Ehdr::parse(&b[..63]).err(), Some(ElfError::Truncated));
    assert_eq!(Elf64Ehdr::parse(&[]).err(), Some(ElfError::Truncated));
    assert!(Elf64Ehdr::parse(&b[..64]).is_ok());
}

#[test]
fn section_table_has_one_entry_per_section() {
    let b = sample();
    let h = Elf64Ehdr::validate(&b).unwrap();
    let t = h.get_sht(&b).unwrap();
    assert_eq!(t.len(), h.e_shnum as usize);
    for s in &t {
        assert!(s.sh_offset + s.sh_size <= b.len() as u64);
    }
    let expected = Elf64Shdr { sh_name: 12, sh_addralign: 0, ..strtab_hdr() };
    assert_eq!(t[2], expected);
}

#[test]
fn section_table_past_end_is_out_of_bounds() {
    let b = sample();
    let h = Elf64Ehdr::parse(&b).unwrap();
    assert_eq!(h.get_sht(&b[..279]).err(), Some(ElfError::OutOfBounds));
    let mut far = sample();
    put_u64(&mut far, 40, u64::MAX - 10);
    let h = Elf64Ehdr::parse(&far).unwrap();
    assert_eq!(h.get_sht(&far).err(), Some(ElfError::OutOfBounds));
    assert_eq!(Elf64Ehdr::validate(&far).err(), Some(ElfError::OutOfBounds));
}

#[test]
fn empty_section_table() {
    let mut b = sample();
    put_u16(&mut b, 60, 0);
    let h = Elf64Ehdr::parse(&b).unwrap();
    assert_eq!(h.get_sht(&b).unwrap().len(), 0);
    assert_eq!(h.get_shstrtab_hdr(&b).err(), Some(ElfError::BadSectionIndex));
    assert_eq!(h.get_she(&b, ".text").err(), Some(ElfError::BadSectionIndex));
}

#[test]
fn validate_rejects_section_past_end() {
    let mut b = sample();
    put_u64(&mut b, 152 + 32, 1000);
    assert_eq!(Elf64Ehdr::validate(&b).err(), Some(ElfError::OutOfBounds));
    put_u32(&mut b, 152 + 4, SHT_NOBITS);
    assert_eq!(Elf64Ehdr::validate(&b).err(), Some(ElfError::OutOfBounds));
}

#[test]
fn shstrtab_index_selects_descriptor() {
    let b = sample();
    let h = Elf64Ehdr::parse(&b).unwrap();
    let s = h.get_shstrtab_hdr(&b).unwrap();
    assert_eq!(s.sh_type, SHT_STRTAB);
    assert_eq!(s.sh_offset, 64);
    assert_eq!(s.sh_size, 12);
    let mut bad = sample();
    put_u16(&mut bad, 62, 3);
    let h = Elf64Ehdr::parse(&bad).unwrap();
    assert_eq!(h.get_shstrtab_hdr(&bad).err(), Some(ElfError::BadSectionIndex));
}

#[test]
fn find_section_needs_string_table() {
    let mut b = sample();
    put_u16(&mut b, 62, 0);
    let h = Elf64Ehdr::parse(&b).unwrap();
    assert_eq!(h.get_she(&b, ".text").err(), Some(ElfError::NotStringTable));
}

#[test]
fn get_name_resolves_names() {
    let b = sample();
    let s = strtab_hdr();
    assert_eq!(s.get_name(&b, 0), Ok(".text"));
    assert_eq!(s.get_name(&b, 6), Ok(".data"));
    assert_eq!(s.get_name(&b, 7), Ok("data"));
    assert_eq!(s.get_name(&b, 5), Ok(""));
    assert_eq!(s.get_name(&b, 12), Ok(""));
    assert_eq!(s.get_name(&b, 13), Err(ElfError::NameOutOfRange));
}

#[test]
fn get_name_stops_at_section_end() {
    let mut b = sample();
    b[76] = b'x';
    let mut s = strtab_hdr();
    s.sh_size = 11;
    // The terminator of ".data" lies outside the shortened section.
    assert_eq!(s.get_name(&b, 6), Ok(".data"));
    s.sh_size = 10;
    assert_eq!(s.get_name(&b, 6), Ok(".dat"));
}

#[test]
fn get_name_round_trips_written_text() {
    let mut b = vec![0u8; 32];
    let text = "héllo";
    b[5..5 + text.len()].copy_from_slice(text.as_bytes());
    let mut s = strtab_hdr();
    s.sh_offset = 2;
    s.sh_size = 20;
    assert_eq!(s.get_name(&b, 3), Ok(text));
}

#[test]
fn get_name_rejects_bad_text() {
    let mut b = sample();
    b[70] = 0xff;
    let s = strtab_hdr();
    assert_eq!(s.get_name(&b, 6), Err(ElfError::BadText));
    assert_eq!(s.get_name(&b, 0), Ok(".text"));
}

#[test]
fn get_name_needs_string_table() {
    let b = sample();
    let mut s = strtab_hdr();
    s.sh_type = SHT_SYMTAB;
    assert_eq!(s.get_name(&b, 0), Err(ElfError::NotStringTable));
}

#[test]
fn get_name_section_past_end() {
    let b = sample();
    let mut s = strtab_hdr();
    s.sh_offset = 275;
    assert_eq!(s.get_name(&b, 0), Err(ElfError::OutOfBounds));
    s.sh_offset = u64::MAX;
    assert_eq!(s.get_name(&b, 0), Err(ElfError::OutOfBounds));
}

fn rela_buffer() -> (Vec<u8>, Elf64Shdr) {
    let mut b = vec![0u8; 40];
    put_u64(&mut b, 8, 0x1000);
    put_u64(&mut b, 16, (7u64 << 32) | 2);
    put_u64(&mut b, 24, (-4i64) as u64);
    let sh = Elf64Shdr {
        sh_name: 0,
        sh_type: SHT_RELA,
        sh_flags: 0,
        sh_addr: 0,
        sh_offset: 8,
        sh_size: 24,
        sh_link: 0,
        sh_info: 0,
        sh_addralign: 8,
        sh_entsize: 24,
    };
    (b, sh)
}

#[test]
fn relocation_table_decodes_entry() {
    let (b, sh) = rela_buffer();
    let t = sh.get_table::<Elf64Rela>(&b).unwrap();
    assert_eq!(t.len(), 1);
    assert_eq!(t[0].r_offset, 0x1000);
    assert_eq!(t[0].r_addend, -4);
    assert_eq!(t[0].r_sym(), 7);
    assert_eq!(t[0].r_type(), 2);
}

#[test]
fn entry_table_rejects_wrong_entry_size() {
    let (b, mut sh) = rela_buffer();
    sh.sh_entsize = 16;
    assert_eq!(sh.get_table::<Elf64Rela>(&b).err(), Some(ElfError::EntrySizeMismatch));
    sh.sh_entsize = 0;
    assert_eq!(sh.get_table::<Elf64Rela>(&b).err(), Some(ElfError::EntrySizeMismatch));
    sh.sh_entsize = 24;
    assert_eq!(sh.get_table::<Elf64Shdr>(&b).err(), Some(ElfError::EntrySizeMismatch));
}

#[test]
fn entry_table_past_end_is_out_of_bounds() {
    let (b, mut sh) = rela_buffer();
    sh.sh_size = 48;
    assert_eq!(sh.get_table::<Elf64Rela>(&b).err(), Some(ElfError::OutOfBounds));
}

#[test]
fn entry_table_rejects_trailing_bytes() {
    let (b, mut sh) = rela_buffer();
    sh.sh_size = 30;
    let mut big = b.clone();
    big.extend_from_slice(&[0u8; 8]);
    assert_eq!(sh.get_table::<Elf64Rela>(&big).err(), Some(ElfError::UnevenSize));
    assert_eq!(sh.get_section_as_slice::<Elf64Rela>(&big).err(), Some(ElfError::UnevenSize));
}

#[test]
fn typed_view_counts_records() {
    let (b, sh) = rela_buffer();
    let v = sh.get_section_as_slice::<Elf64Sym>(&b).unwrap();
    assert_eq!(v.len(), 1);
    assert_eq!(v[0].st_value, (7u64 << 32) | 2);
    assert_eq!(v[0].st_size, (-4i64) as u64);
    let mut uneven = sh;
    uneven.sh_size = 20;
    assert_eq!(uneven.get_section_as_slice::<Elf64Sym>(&b).err(), Some(ElfError::UnevenSize));
    let mut far = sh;
    far.sh_offset = 20;
    assert_eq!(far.get_section_as_slice::<Elf64Rela>(&b).err(), Some(ElfError::OutOfBounds));
}

#[test]
fn typed_view_empty_section() {
    let (b, mut sh) = rela_buffer();
    sh.sh_size = 0;
    assert_eq!(sh.get_section_as_slice::<Elf64Rela>(&b).unwrap().len(), 0);
}

#[test]
fn symbol_fields_decode() {
    let mut b = vec![0u8; 24];
    put_u32(&mut b, 0, 9);
    b[4] = 0x12;
    b[5] = 3;
    put_u16(&mut b, 6, 4);
    put_u64(&mut b, 8, 0x401000);
    put_u64(&mut b, 16, 42);
    let sh = Elf64Shdr {
        sh_name: 0,
        sh_type: SHT_SYMTAB,
        sh_flags: 0,
        sh_addr: 0,
        sh_offset: 0,
        sh_size: 24,
        sh_link: 0,
        sh_info: 0,
        sh_addralign: 8,
        sh_entsize: 24,
    };
    let t = sh.get_table::<Elf64Sym>(&b).unwrap();
    assert_eq!(t.len(), 1);
    assert_eq!(t[0].st_name, 9);
    assert_eq!(t[0].st_other, 3);
    assert_eq!(t[0].st_shndx, 4);
    assert_eq!(t[0].st_value, 0x401000);
    assert_eq!(t[0].st_size, 42);
    assert_eq!(t[0].st_bind(), 1);
    assert_eq!(t[0].st_type(), 2);
}

fn sym(info: u8) -> Elf64Sym {
    Elf64Sym { st_name: 0, st_info: info, st_other: 0, st_shndx: 0, st_value: 0, st_size: 0 }
}

#[test]
fn symbol_info_is_a_bit_split() {
    for b in 0..=255u8 {
        assert_eq!(sym(b).st_bind(), b >> 4);
        assert_eq!(sym(b).st_type(), b & 0xf);
    }
    assert_eq!(sym(0xff).st_bind(), 15);
    assert_eq!(sym(0xff).st_type(), 15);
    assert_eq!(sym(0xa6).st_bind(), 10);
    assert_eq!(sym(0xa6).st_type(), 6);
}

fn rela(info: u64) -> Elf64Rela {
    Elf64Rela { r_offset: 0, r_info: info, r_addend: 0 }
}

#[test]
fn relocation_info_is_a_bit_split() {
    assert_eq!(rela((7 << 32) | 2).r_sym(), 7);
    assert_eq!(rela((7 << 32) | 2).r_type(), 2);
    assert_eq!(rela(u64::MAX).r_sym(), 0xffff_ffff);
    assert_eq!(rela(u64::MAX).r_type(), 0xffff_ffff);
    assert_eq!(rela(0).r_sym(), 0);
    assert_eq!(rela(0x1234_5678_9abc_def0).r_sym(), 0x1234_5678);
    assert_eq!(rela(0x1234_5678_9abc_def0).r_type(), 0x9abc_def0);
}

#[test]
fn segment_table_decodes() {
    let mut b = sample();
    let phoff = b.len();
    b.extend_from_slice(&[0u8; 56]);
    put_u64(&mut b, 32, phoff as u64);
    put_u16(&mut b, 54, 56);
    put_u16(&mut b, 56, 1);
    put_u32(&mut b, phoff, PT_LOAD);
    put_u32(&mut b, phoff + 4, PF_R | PF_X);
    put_u64(&mut b, phoff + 8, 76);
    put_u64(&mut b, phoff + 16, 0x400000);
    put_u64(&mut b, phoff + 32, 4);
    put_u64(&mut b, phoff + 40, 8);
    put_u64(&mut b, phoff + 48, 0x1000);
    let h = Elf64Ehdr::parse(&b).unwrap();
    let p = h.get_pht(&b).unwrap();
    assert_eq!(p.len(), 1);
    let seg: Elf64Phdr = p[0];
    assert_eq!(seg.p_offset, 76);
    assert_eq!(seg.p_vaddr, 0x400000);
    assert_eq!(seg.p_filesz, 4);
    assert_eq!(seg.p_memsz, 8);
    assert_eq!(seg.p_align, 0x1000);
    assert!(seg.is_load());
    assert!(seg.is_readable());
    assert!(seg.is_executable());
    assert!(!seg.is_writable());
    put_u16(&mut b, 56, 2);
    let h = Elf64Ehdr::parse(&b).unwrap();
    assert_eq!(h.get_pht(&b).err(), Some(ElfError::OutOfBounds));
}

#[test]
fn typed_view_of_bytes_is_the_section() {
    let b = sample();
    let bytes = strtab_hdr().get_section_as_slice::<u8>(&b).unwrap();
    assert_eq!(bytes, STRTAB.to_vec());
}
