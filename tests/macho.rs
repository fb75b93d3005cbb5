use macho_read::relocs::decode_relocation;
use macho_read::endian::Endianness;
use macho_read::{
    Architecture, Error, FileFlags, MachOFile, RelocationEncoding, RelocationKind,
    RelocationTarget, SectionIndex, SectionKind, SymbolIndex, SymbolKind, SymbolScope,
    SymbolSection,
};

const CPU_TYPE_X86_64: u32 = 0x0100_0007;
const CPU_TYPE_ARM64: u32 = 0x0100_000c;
const LC_SEGMENT_64: u32 = 0x19;
const LC_SEGMENT: u32 = 0x1;
const LC_SYMTAB: u32 = 0x2;
const LC_UUID: u32 = 0x1b;
const LC_MAIN: u32 = 0x8000_0028;

fn put32(v: &mut Vec<u8>, x: u32, big: bool) {
    if big {
        v.extend_from_slice(&x.to_be_bytes());
    } else {
        v.extend_from_slice(&x.to_le_bytes());
    }
}

fn put64(v: &mut Vec<u8>, x: u64) {
    v.extend_from_slice(&x.to_le_bytes());
}

fn name16(s: &str) -> [u8; 16] {
    let mut n = [0u8; 16];
    n[..s.len()].copy_from_slice(s.as_bytes());
    n
}

/// A 64-bit little-endian header followed by the given load commands.
fn file64(cputype: u32, commands: &[Vec<u8>]) -> Vec<u8> {
    let size: usize = commands.iter().map(|c| c.len()).sum();
    let mut v = Vec::new();
    v.extend_from_slice(&[0xcf, 0xfa, 0xed, 0xfe]);
    put32(&mut v, cputype, false);
    put32(&mut v, 3, false);
    put32(&mut v, 1, false);
    put32(&mut v, commands.len() as u32, false);
    put32(&mut v, size as u32, false);
    put32(&mut v, 0x2000, false);
    put32(&mut v, 0, false);
    for c in commands {
        v.extend_from_slice(c);
    }
    v
}

struct Sect {
    name: &'static str,
    seg: &'static str,
    addr: u64,
    size: u64,
    offset: u32,
    reloff: u32,
    nreloc: u32,
    flags: u32,
}

fn sect(name: &'static str, seg: &'static str, addr: u64, size: u64) -> Sect {
    Sect { name, seg, addr, size, offset: 0, reloff: 0, nreloc: 0, flags: 0 }
}

fn segment64(name: &str, sections: &[Sect]) -> Vec<u8> {
    let mut v = Vec::new();
    put32(&mut v, LC_SEGMENT_64, false);
    put32(&mut v, 72 + 80 * sections.len() as u32, false);
    v.extend_from_slice(&name16(name));
    for _ in 0..4 {
        put64(&mut v, 0);
    }
    for _ in 0..2 {
        put32(&mut v, 7, false);
    }
    put32(&mut v, sections.len() as u32, false);
    put32(&mut v, 0, false);
    for s in sections {
        v.extend_from_slice(&name16(s.name));
        v.extend_from_slice(&name16(s.seg));
        put64(&mut v, s.addr);
        put64(&mut v, s.size);
        put32(&mut v, s.offset, false);
        put32(&mut v, 4, false);
        put32(&mut v, s.reloff, false);
        put32(&mut v, s.nreloc, false);
        put32(&mut v, s.flags, false);
        for _ in 0..3 {
            put32(&mut v, 0, false);
        }
    }
    v
}

fn symtab(symoff: u32, nsyms: u32, stroff: u32, strsize: u32) -> Vec<u8> {
    let mut v = Vec::new();
    for x in [LC_SYMTAB, 24, symoff, nsyms, stroff, strsize] {
        put32(&mut v, x, false);
    }
    v
}

fn uuid_command(uuid: [u8; 16]) -> Vec<u8> {
    let mut v = Vec::new();
    put32(&mut v, LC_UUID, false);
    put32(&mut v, 24, false);
    v.extend_from_slice(&uuid);
    v
}

fn main_command(entryoff: u64) -> Vec<u8> {
    let mut v = Vec::new();
    put32(&mut v, LC_MAIN, false);
    put32(&mut v, 24, false);
    put64(&mut v, entryoff);
    put64(&mut v, 0);
    v
}

fn nlist64(v: &mut Vec<u8>, strx: u32, ntype: u8, nsect: u8, desc: u16, value: u64) {
    put32(v, strx, false);
    v.push(ntype);
    v.push(nsect);
    v.extend_from_slice(&desc.to_le_bytes());
    put64(v, value);
}

fn text_segment() -> Vec<u8> {
    segment64(
        "__TEXT",
        &[sect("__text", "__TEXT", 0x1000, 0x40), sect("__cstring", "__TEXT", 0x1040, 0x10)],
    )
}

#[test]
fn parse_rejects_fat_magic() {
    let mut data = vec![0xca, 0xfe, 0xba, 0xbe, 0, 0, 0, 2];
    data.resize(64, 0);
    let r = MachOFile::parse(&data);
    assert_eq!(r.unwrap_err(), Error("Unsupported Mach-O header"));
}

#[test]
fn short_buffer_is_a_size_error_before_magic() {
    let data = [0xca, 0xfe, 0xba, 0xbe, 0, 0, 0, 2];
    assert_eq!(
        MachOFile::parse(&data).unwrap_err(),
        Error("Invalid Mach-O header size or alignment")
    );
    let mut data64 = file64(CPU_TYPE_X86_64, &[]);
    data64.truncate(30);
    assert_eq!(
        MachOFile::parse(&data64).unwrap_err(),
        Error("Invalid Mach-O header size or alignment")
    );
}

#[test]
fn parse_rejects_short_input() {
    assert!(MachOFile::parse(&[0xcf, 0xfa]).is_err());
    assert!(MachOFile::parse(&[0xcf, 0xfa, 0xed, 0xfe, 7, 0, 0, 1]).is_err());
}

#[test]
fn empty_64_bit_file() {
    let data = file64(CPU_TYPE_X86_64, &[]);
    let f = MachOFile::parse(&data).unwrap();
    assert!(f.segments().next().is_none());
    assert!(f.sections().next().is_none());
    assert!(f.symbols().next().is_none());
    assert_eq!(f.entry(), 0);
    assert_eq!(f.mach_uuid(), Ok(None));
    assert!(f.is_64());
    assert!(f.is_little_endian());
    assert_eq!(f.architecture(), Architecture::X86_64);
    assert_eq!(f.flags(), FileFlags::MachO { flags: 0x2000 });
    assert!(!f.has_debug_symbols());
    assert!(f.symbol_map().symbols.is_empty());
}

#[test]
fn sections_by_name_and_index() {
    let data = file64(CPU_TYPE_X86_64, &[text_segment()]);
    let f = MachOFile::parse(&data).unwrap();
    let text = f.section_by_name("__text").unwrap();
    assert_eq!(text.kind(), SectionKind::Text);
    assert_eq!(text.index(), SectionIndex(1));
    assert_eq!(text.address(), 0x1000);
    assert_eq!(text.size(), 0x40);
    assert_eq!(text.align(), 16);
    assert_eq!(text.name(), Ok("__text"));
    assert_eq!(text.segment_name(), Ok(Some("__TEXT")));
    let alias = f.section_by_name(".text").unwrap();
    assert_eq!(alias.index(), SectionIndex(1));
    let cstring = f.section_by_index(SectionIndex(2)).unwrap();
    assert_eq!(cstring.kind(), SectionKind::ReadOnlyString);
    assert_eq!(cstring.address(), 0x1040);
    assert!(f.section_by_index(SectionIndex(0)).is_err());
    assert!(f.section_by_index(SectionIndex(3)).is_err());
    assert!(f.section_by_name(".data").is_none());
}

#[test]
fn every_section_found_by_its_index() {
    let data = file64(
        CPU_TYPE_X86_64,
        &[
            text_segment(),
            segment64("__DATA", &[sect("__data", "__DATA", 0x2000, 8), sect("__bss", "__DATA", 0x2008, 8)]),
        ],
    );
    let f = MachOFile::parse(&data).unwrap();
    let mut it = f.sections();
    let mut n = 0;
    while let Some(s) = it.next() {
        n += 1;
        assert_eq!(s.index(), SectionIndex(n));
        let again = f.section_by_index(s.index()).unwrap();
        assert_eq!(again.address(), s.address());
        assert_eq!(again.kind(), s.kind());
    }
    assert_eq!(n, 4);
    assert_eq!(f.section_by_index(SectionIndex(3)).unwrap().kind(), SectionKind::Data);
    assert_eq!(f.section_by_index(SectionIndex(4)).unwrap().kind(), SectionKind::UninitializedData);
}

#[test]
fn segments_are_listed() {
    let data = file64(CPU_TYPE_X86_64, &[text_segment(), uuid_command([1; 16])]);
    let f = MachOFile::parse(&data).unwrap();
    let mut it = f.segments();
    let seg = it.next().unwrap();
    assert_eq!(seg.name(), Ok(Some("__TEXT")));
    assert_eq!(seg.align(), 0x1000);
    assert!(it.next().is_none());
}

fn symbol_file() -> Vec<u8> {
    let header_and_cmds = 32 + 72 + 160 + 24;
    let symoff = header_and_cmds as u32;
    let stroff = symoff + 32;
    let mut data = file64(CPU_TYPE_X86_64, &[text_segment(), symtab(symoff, 2, stroff, 5)]);
    nlist64(&mut data, 1, 0x0e | 0x01, 1, 0, 0x1000);
    nlist64(&mut data, 6, 0xe0, 0, 0, 0);
    data.extend_from_slice(b"\0foo\0");
    data
}

#[test]
fn symbols_skip_debugging_entries() {
    let data = symbol_file();
    let f = MachOFile::parse(&data).unwrap();
    let mut it = f.symbols();
    let (index, sym) = it.next().unwrap();
    assert_eq!(index, SymbolIndex(0));
    assert_eq!(sym.name, Some("foo"));
    assert_eq!(sym.address, 0x1000);
    assert_eq!(sym.scope, SymbolScope::Dynamic);
    assert_eq!(sym.kind, SymbolKind::Text);
    assert_eq!(sym.section, SymbolSection::Section(SectionIndex(1)));
    assert!(!sym.weak);
    assert!(it.next().is_none());
    assert!(f.symbol_by_index(SymbolIndex(1)).is_err());
    assert!(f.symbol_by_index(SymbolIndex(2)).is_err());
    assert_eq!(f.symbol_by_index(SymbolIndex(0)).unwrap().address, 0x1000);
    assert!(f.dynamic_symbols().next().is_some());
}

#[test]
fn symbol_scopes_and_sections() {
    let header_and_cmds = 32 + 72 + 160 + 24;
    let symoff = header_and_cmds as u32;
    let stroff = symoff + 5 * 16;
    let mut data = file64(CPU_TYPE_X86_64, &[text_segment(), symtab(symoff, 5, stroff, 2)]);
    // undefined, external
    nlist64(&mut data, 0, 0x01, 0, 0x40, 0);
    // absolute, local
    nlist64(&mut data, 0, 0x02, 0, 0, 5);
    // section, private external
    nlist64(&mut data, 0, 0x0e | 0x10 | 0x01, 2, 0x80, 0x1040);
    // section with n_sect 0
    nlist64(&mut data, 0, 0x0e, 0, 0, 7);
    // name offset past the string table
    nlist64(&mut data, 9, 0x0e, 9, 0, 8);
    data.extend_from_slice(b"\0\0");
    let f = MachOFile::parse(&data).unwrap();
    let s0 = f.symbol_by_index(SymbolIndex(0)).unwrap();
    assert_eq!(s0.section, SymbolSection::Undefined);
    assert_eq!(s0.scope, SymbolScope::Unknown);
    assert!(s0.weak);
    let s1 = f.symbol_by_index(SymbolIndex(1)).unwrap();
    assert_eq!(s1.section, SymbolSection::Absolute);
    assert_eq!(s1.scope, SymbolScope::Compilation);
    let s2 = f.symbol_by_index(SymbolIndex(2)).unwrap();
    assert_eq!(s2.scope, SymbolScope::Linkage);
    assert_eq!(s2.kind, SymbolKind::Data);
    assert!(s2.weak);
    let s3 = f.symbol_by_index(SymbolIndex(3)).unwrap();
    assert_eq!(s3.section, SymbolSection::Unknown);
    assert_eq!(s3.kind, SymbolKind::Unknown);
    let s4 = f.symbol_by_index(SymbolIndex(4)).unwrap();
    assert_eq!(s4.name, None);
    assert_eq!(s4.section, SymbolSection::Unknown);
    assert_eq!(s4.kind, SymbolKind::Unknown);
}

#[test]
fn uuid_and_entry() {
    let uuid = [
        0x00, 0x11, 0x22, 0x33, 0x44, 0x55, 0x66, 0x77, 0x88, 0x99, 0xaa, 0xbb, 0xcc, 0xdd, 0xee, 0xff,
    ];
    let data = file64(CPU_TYPE_ARM64, &[uuid_command(uuid), main_command(0x4f00)]);
    let f = MachOFile::parse(&data).unwrap();
    assert_eq!(f.mach_uuid(), Ok(Some(uuid)));
    assert_eq!(f.mach_uuid(), Ok(Some(uuid)));
    assert_eq!(f.entry(), 0x4f00);
    assert_eq!(f.architecture(), Architecture::Aarch64);
}

#[test]
fn truncated_uuid_is_an_error() {
    let mut cmd = Vec::new();
    put32(&mut cmd, LC_UUID, false);
    put32(&mut cmd, 8, false);
    let data = file64(CPU_TYPE_X86_64, &[cmd]);
    let f = MachOFile::parse(&data).unwrap();
    assert!(f.mach_uuid().is_err());
}

#[test]
fn error_values_of_lookups() {
    let data = file64(CPU_TYPE_X86_64, &[text_segment()]);
    let f = MachOFile::parse(&data).unwrap();
    assert_eq!(f.section_by_index(SectionIndex(7)).unwrap_err(), Error("Invalid Mach-O section index"));
    assert_eq!(f.symbol_by_index(SymbolIndex(0)).unwrap_err(), Error("Invalid Mach-O symbol index"));
    let mut text = sect("__text", "__TEXT", 0x1000, 0x40);
    text.offset = 0x10_0000;
    let data = file64(CPU_TYPE_X86_64, &[segment64("__TEXT", &[text])]);
    let f = MachOFile::parse(&data).unwrap();
    assert_eq!(
        f.section_by_index(SectionIndex(1)).unwrap().data().unwrap_err(),
        Error("Invalid Mach-O section size or offset")
    );
}

#[test]
fn truncated_segment_fails_parse() {
    let mut cmd = Vec::new();
    put32(&mut cmd, LC_SEGMENT_64, false);
    put32(&mut cmd, 16, false);
    cmd.extend_from_slice(&[0; 8]);
    let data = file64(CPU_TYPE_X86_64, &[cmd]);
    assert_eq!(MachOFile::parse(&data).unwrap_err(), Error("Invalid Mach-O LC_SEGMENT_64 command size"));
}

#[test]
fn symtab_out_of_bounds_fails_parse() {
    let data = file64(CPU_TYPE_X86_64, &[symtab(0x1000, 1, 0, 0)]);
    assert_eq!(
        MachOFile::parse(&data).unwrap_err(),
        Error("Invalid Mach-O symbol table offset or size")
    );
}

#[test]
fn command_size_past_end_fails_parse() {
    let mut cmd = Vec::new();
    put32(&mut cmd, LC_SEGMENT_64, false);
    put32(&mut cmd, 0x1000, false);
    let data = file64(CPU_TYPE_X86_64, &[cmd]);
    assert_eq!(
        MachOFile::parse(&data).unwrap_err(),
        Error("Invalid Mach-O load command size")
    );
}

#[test]
fn cut_short_command_header_fails_parse() {
    let mut data = file64(CPU_TYPE_X86_64, &[]);
    // One command announced, but no command bytes.
    data[16] = 1;
    assert_eq!(
        MachOFile::parse(&data).unwrap_err(),
        Error("Invalid Mach-O load command header")
    );
}

#[test]
fn command_area_past_end_fails_parse() {
    let mut data = file64(CPU_TYPE_X86_64, &[]);
    data[20] = 0x40;
    assert_eq!(
        MachOFile::parse(&data).unwrap_err(),
        Error("Invalid Mach-O load command table size")
    );
}

#[test]
fn section_data_and_zerofill() {
    let mut text = sect("__text", "__TEXT", 0x1000, 4);
    text.offset = 32 + 72 + 160;
    let mut bss = sect("__bss", "__DATA", 0x2000, 0x100);
    bss.flags = 1;
    let mut data = file64(CPU_TYPE_X86_64, &[segment64("__TEXT", &[text, bss])]);
    data.extend_from_slice(&[0x90, 0x90, 0xc3, 0xcc]);
    let f = MachOFile::parse(&data).unwrap();
    let t = f.section_by_index(SectionIndex(1)).unwrap();
    assert_eq!(t.data(), Ok(&[0x90u8, 0x90, 0xc3, 0xcc][..]));
    assert_eq!(t.file_range(), Some((264, 4)));
    assert_eq!(t.data_range(0x1001, 2), Ok(Some(&[0x90u8, 0xc3][..])));
    assert_eq!(t.data_range(0x1003, 2), Ok(None));
    let b = f.section_by_index(SectionIndex(2)).unwrap();
    assert_eq!(b.file_range(), None);
    assert_eq!(b.data(), Ok(&[][..]));
}

#[test]
fn section_data_past_end_is_an_error() {
    let mut text = sect("__text", "__TEXT", 0x1000, 0x40);
    text.offset = 0x10_0000;
    let data = file64(CPU_TYPE_X86_64, &[segment64("__TEXT", &[text])]);
    let f = MachOFile::parse(&data).unwrap();
    assert!(f.section_by_index(SectionIndex(1)).unwrap().data().is_err());
}

#[test]
fn debug_section_alias() {
    let data = file64(
        CPU_TYPE_X86_64,
        &[segment64("__DWARF", &[sect("__debug_info", "__DWARF", 0, 0)])],
    );
    let f = MachOFile::parse(&data).unwrap();
    assert!(f.has_debug_symbols());
    assert_eq!(f.section_by_name(".debug_info").unwrap().kind(), SectionKind::Debug);
}

#[test]
fn got_load_relocation() {
    let w1: u32 = 7 | (1 << 24) | (2 << 25) | (1 << 27) | (3 << 28);
    let (offset, r) = decode_relocation(CPU_TYPE_X86_64, 0x20, w1, Endianness::Little).unwrap();
    assert_eq!(offset, 0x20);
    assert_eq!(r.kind, RelocationKind::GotRelative);
    assert_eq!(r.encoding, RelocationEncoding::X86RipRelativeMovq);
    assert_eq!(r.size, 32);
    assert_eq!(r.target, RelocationTarget::Symbol(SymbolIndex(7)));
    assert_eq!(r.addend, -4);
    assert!(r.implicit_addend);
}

#[test]
fn relocations_of_a_section() {
    let reloff = 32 + 72 + 80;
    let mut text = sect("__text", "__TEXT", 0x1000, 0x40);
    text.reloff = reloff;
    text.nreloc = 2;
    let mut data = file64(CPU_TYPE_X86_64, &[segment64("__TEXT", &[text])]);
    put32(&mut data, 0x20, false);
    put32(&mut data, 7 | (1 << 24) | (2 << 25) | (1 << 27) | (3 << 28), false);
    put32(&mut data, 0x8, false);
    put32(&mut data, 1 | (3 << 25), false);
    let f = MachOFile::parse(&data).unwrap();
    let s = f.section_by_index(SectionIndex(1)).unwrap();
    let mut it = s.relocations();
    let (off, r) = it.next().unwrap();
    assert_eq!(off, 0x20);
    assert_eq!(r.kind, RelocationKind::GotRelative);
    let (off, r) = it.next().unwrap();
    assert_eq!(off, 0x8);
    assert_eq!(r.kind, RelocationKind::Absolute);
    assert_eq!(r.size, 64);
    assert_eq!(r.target, RelocationTarget::Section(SectionIndex(1)));
    assert_eq!(r.addend, 0);
    assert!(it.next().is_none());
}

#[test]
fn scattered_relocation_is_skipped() {
    assert!(decode_relocation(7, 0x8000_0010, 0, Endianness::Little).is_none());
    let r = decode_relocation(7, 0x10, 0, Endianness::Little).unwrap();
    assert_eq!(r.1.kind, RelocationKind::Absolute);
    let r = decode_relocation(12, 0x10, 5 << 28, Endianness::Little).unwrap();
    assert_eq!(r.1.kind, RelocationKind::MachO { value: 5, relative: false });
}

#[test]
fn big_endian_relocation_fields() {
    // r_symbolnum=3, pcrel, length 2, extern, type 2 (branch)
    let w1: u32 = (3 << 8) | (1 << 7) | (2 << 5) | (1 << 4) | 2;
    let (_, r) = decode_relocation(CPU_TYPE_X86_64, 4, w1, Endianness::Big).unwrap();
    assert_eq!(r.kind, RelocationKind::Relative);
    assert_eq!(r.encoding, RelocationEncoding::X86Branch);
    assert_eq!(r.target, RelocationTarget::Symbol(SymbolIndex(3)));
    assert_eq!(r.size, 32);
}

#[test]
fn symbol_map_sizes() {
    let header_and_cmds = 32 + 72 + 160 + 24;
    let symoff = header_and_cmds as u32;
    let stroff = symoff + 4 * 16;
    let mut data = file64(CPU_TYPE_X86_64, &[text_segment(), symtab(symoff, 4, stroff, 9)]);
    nlist64(&mut data, 1, 0x0f, 1, 0, 0x1010);
    nlist64(&mut data, 3, 0x0f, 1, 0, 0x1000);
    nlist64(&mut data, 5, 0x0f, 2, 0, 0x1044);
    nlist64(&mut data, 7, 0x01, 0, 0, 0);
    data.extend_from_slice(b"\0b\0a\0c\0u\0");
    let f = MachOFile::parse(&data).unwrap();
    let map = f.symbol_map();
    let got: Vec<(Option<&str>, u64, u64)> = map.symbols.iter().map(|s| (s.name, s.address, s.size)).collect();
    assert_eq!(got, vec![(Some("a"), 0x1000, 0x10), (Some("b"), 0x1010, 0x30), (Some("c"), 0x1044, 0xc)]);
    for w in map.symbols.windows(2) {
        assert!(w[0].address <= w[1].address);
        if w[0].address < w[1].address {
            assert!(w[0].size <= w[1].address - w[0].address);
        }
        assert_ne!(w[0].kind, SymbolKind::Section);
    }
}

#[test]
fn symbol_at_section_end_gets_no_size() {
    let header_and_cmds = 32 + 72 + 160 + 24;
    let symoff = header_and_cmds as u32;
    let stroff = symoff + 16;
    let mut data = file64(CPU_TYPE_X86_64, &[text_segment(), symtab(symoff, 1, stroff, 3)]);
    nlist64(&mut data, 1, 0x0f, 1, 0, 0x1050);
    data.extend_from_slice(b"\0e\0");
    let f = MachOFile::parse(&data).unwrap();
    assert!(f.symbol_map().symbols.is_empty());
}

#[test]
fn thirty_two_bit_big_endian_file() {
    let mut data = Vec::new();
    put32(&mut data, 0xfeed_face, true);
    put32(&mut data, 12, true);
    put32(&mut data, 0, true);
    put32(&mut data, 1, true);
    put32(&mut data, 1, true);
    put32(&mut data, 56 + 68, true);
    put32(&mut data, 1, true);
    put32(&mut data, LC_SEGMENT, true);
    put32(&mut data, 56 + 68, true);
    data.extend_from_slice(&name16("__DATA"));
    for _ in 0..6 {
        put32(&mut data, 0, true);
    }
    put32(&mut data, 1, true);
    put32(&mut data, 0, true);
    data.extend_from_slice(&name16("__data"));
    data.extend_from_slice(&name16("__DATA"));
    put32(&mut data, 0x3000, true);
    put32(&mut data, 0x20, true);
    for _ in 0..7 {
        put32(&mut data, 0, true);
    }
    let f = MachOFile::parse(&data).unwrap();
    assert!(!f.is_64());
    assert!(!f.is_little_endian());
    assert_eq!(f.architecture(), Architecture::Arm);
    let s = f.section_by_name("__data").unwrap();
    assert_eq!(s.kind(), SectionKind::Data);
    assert_eq!(s.address(), 0x3000);
    assert_eq!(s.size(), 0x20);
    assert_eq!(s.align(), 1);
    assert_eq!(f.segments().next().unwrap().name(), Ok(Some("__DATA")));
}

#[test]
fn random_bytes_do_not_panic() {
    let mut seed: u32 = 12345;
    for len in 0..300usize {
        let mut data = Vec::with_capacity(len);
        for _ in 0..len {
            seed = seed.wrapping_mul(1_103_515_245).wrapping_add(12345);
            data.push((seed >> 16) as u8);
        }
        if len >= 4 {
            data[0..4].copy_from_slice(&[0xcf, 0xfa, 0xed, 0xfe]);
        }
        if let Ok(f) = MachOFile::parse(&data) {
            let _ = f.entry();
            let _ = f.mach_uuid();
            let _ = f.symbol_map();
            let mut s = f.sections();
            while let Some(sec) = s.next() {
                let _ = sec.data();
                let mut r = sec.relocations();
                while r.next().is_some() {}
            }
        }
    }
}

#[test]
fn names_that_are_not_utf8() {
    let header_and_cmds = 32 + 72 + 80 + 24;
    let symoff = header_and_cmds as u32;
    let stroff = symoff + 16;
    let bad = sect("__te\u{7f}t", "__TEXT", 0x1000, 0x40);
    let mut seg = segment64("__TEXT", &[bad]);
    // Put an invalid UTF-8 byte into the section name.
    seg[72 + 4] = 0xff;
    let mut data = file64(CPU_TYPE_X86_64, &[seg, symtab(symoff, 1, stroff, 4)]);
    nlist64(&mut data, 1, 0x0f, 1, 0, 0x1000);
    data.extend_from_slice(&[0, 0xff, 0xfe, 0]);
    let f = MachOFile::parse(&data).unwrap();
    let s = f.section_by_index(SectionIndex(1)).unwrap();
    assert!(s.name().is_err());
    assert_eq!(s.segment_name(), Ok(Some("__TEXT")));
    let (_, sym) = f.symbols().next().unwrap();
    assert_eq!(sym.name, None);
    assert_eq!(sym.address, 0x1000);
}

#[test]
fn string_without_terminator_gives_no_name() {
    let header_and_cmds = 32 + 24;
    let symoff = header_and_cmds as u32;
    let stroff = symoff + 16;
    let mut data = file64(CPU_TYPE_X86_64, &[symtab(symoff, 1, stroff, 3)]);
    nlist64(&mut data, 1, 0x03, 0, 0, 0x10);
    data.extend_from_slice(b"\0ab");
    let f = MachOFile::parse(&data).unwrap();
    let (_, sym) = f.symbols().next().unwrap();
    assert_eq!(sym.name, None);
    assert_eq!(sym.section, SymbolSection::Absolute);
}

#[test]
fn only_the_first_symtab_is_read() {
    let header_and_cmds = 32 + 24 + 24;
    let symoff = header_and_cmds as u32;
    let stroff = symoff + 16;
    let mut data = file64(
        CPU_TYPE_X86_64,
        &[symtab(symoff, 1, stroff, 3), symtab(0x10_0000, 1, 0, 0)],
    );
    nlist64(&mut data, 1, 0x03, 0, 0, 0x10);
    data.extend_from_slice(b"\0x\0");
    let f = MachOFile::parse(&data).unwrap();
    let (_, sym) = f.symbols().next().unwrap();
    assert_eq!(sym.name, Some("x"));
}

#[test]
fn architectures_by_cpu_type() {
    for (cputype, arch) in [
        (7, Architecture::I386),
        (8, Architecture::Mips),
        (12, Architecture::Arm),
        (0x0100_000c, Architecture::Aarch64),
        (0x0100_0007, Architecture::X86_64),
        (99, Architecture::Unknown),
    ] {
        let data = file64(cputype, &[]);
        assert_eq!(MachOFile::parse(&data).unwrap().architecture(), arch);
    }
}
