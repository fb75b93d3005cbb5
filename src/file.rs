//! The Mach-O file view: parsing, and the queries on sections, segments,
//! symbols and load commands.
use crate::classify::{section_kind, spec_section_kind, spec_symbol_kind, symbol_kind};
use crate::commands::{
    command_area, segment_error, spec_commands, spec_commands_end, spec_commands_fail, MachOLoadCommand,
    MachOLoadCommandIterator,
};
use crate::endian::{read_bytes_at, read_u32, spec_u32, Endianness};
use crate::macho::{
    header_size, magic_is_32, magic_is_64, magic_is_little, nlist_size, nlist_size_of, section_size,
    section_size_of, segment_size, spec_entry_point, spec_header, spec_magic, spec_nlist,
    spec_section, spec_symtab, MachHeader, Nlist, Section, SectionModel, Segment, SymtabCommand,
    CPU_TYPE_ARM, CPU_TYPE_ARM64, CPU_TYPE_MIPS, CPU_TYPE_X86, CPU_TYPE_X86_64,
    ENTRY_POINT_COMMAND_SIZE, LC_MAIN, LC_SEGMENT, LC_SEGMENT_64, LC_SYMTAB, LC_UUID, MH_CIGAM,
    MH_CIGAM_64, MH_MAGIC, MH_MAGIC_64, N_ABS, N_EXT, N_PEXT, N_SECT, N_STAB, N_TYPE, N_UNDF,
    N_WEAK_DEF, N_WEAK_REF, RELOCATION_SIZE, SYMTAB_COMMAND_SIZE, UUID_COMMAND_SIZE,
};
use crate::read::{
    data_range, Architecture, Error, FileFlags, SectionFlags, SectionIndex, SectionKind, Symbol,
    SymbolFlags, SymbolIndex, SymbolKind, SymbolScope, SymbolSection,
};
use crate::relocs::MachORelocationIterator;
use crate::strings::{bytes_eq, decode_utf8, string_at, string_table_get, trim_nul};
use crate::symbol_map::{
    contains_u64, is_taken, least_above, sort_by_address, sorted_by_address, spec_map_filter,
    stable_reorder, SymbolMap,
};
use vstd::prelude::*;
use vstd::slice::slice_subrange;
use vstd::string::StringSliceAdditionalSpecFns;
use vstd::utf8::valid_utf8;
use vstd::wrapping::u64_specs;

verus! {

/// What parsing gathers from the load commands: the sections of all
/// segments, in order, and the first symbol table command.
pub struct ParseModel {
    pub sections: Seq<SectionModel>,
    pub symtab: Option<SymtabCommand>,
}

/// The size of the smaller (32-bit) Mach-O header.
pub open spec fn min_header_size() -> int {
    28
}

/// Whether `d` starts with a whole Mach-O header whose magic this reader
/// supports.
pub open spec fn header_ok(d: Seq<u8>) -> bool {
    let m = spec_magic(d);
    d.len() >= min_header_size() && (magic_is_32(m) || magic_is_64(m)) && d.len() >= header_size(
        magic_is_64(m),
    )
}

/// The load commands of the file `d`, up to the first one that is cut short.
pub open spec fn file_commands(d: Seq<u8>) -> Seq<(u32, Seq<u8>)> {
    let h = spec_header(d);
    match command_area(h, d) {
        Some(a) => spec_commands(a, h.ncmds as nat, magic_is_little(h.magic as int)),
        None => seq![],
    }
}

/// The segment command id of the given width.
pub open spec fn segment_cmd(is_64: bool) -> u32 {
    if is_64 { LC_SEGMENT_64 } else { LC_SEGMENT }
}

/// The `nsects` field of the segment command `c`.
pub open spec fn segment_nsects(c: Seq<u8>, is_64: bool, le: bool) -> int {
    spec_u32(c, if is_64 { 64 } else { 48 }, le)
}

/// The sections of the segment command `c`; `None` where the command or its
/// section array is cut short.
pub open spec fn segment_sections(c: Seq<u8>, is_64: bool, le: bool) -> Option<Seq<SectionModel>> {
    if c.len() < segment_size(is_64) {
        None
    } else {
        let n = segment_nsects(c, is_64, le);
        let rest = c.skip(segment_size(is_64));
        if n * section_size(is_64) > rest.len() {
            None
        } else {
            Some(Seq::new(n as nat, |i: int| spec_section(rest, i * section_size(is_64), is_64, le)))
        }
    }
}

/// One step of parsing: the state after load command `c`, or the error
/// that `c` raises.
pub open spec fn parse_step(d: Seq<u8>, is_64: bool, le: bool, s: ParseModel, c: (u32, Seq<u8>)) -> Result<ParseModel, Error> {
    if c.0 == segment_cmd(is_64) {
        if c.1.len() < segment_size(is_64) {
            Err(segment_error(is_64))
        } else {
            match segment_sections(c.1, is_64, le) {
                Some(ss) => Ok(ParseModel { sections: s.sections + ss, symtab: s.symtab }),
                None => Err(Error("Invalid Mach-O number of sections")),
            }
        }
    } else if c.0 == LC_SYMTAB && s.symtab is None {
        if c.1.len() < SYMTAB_COMMAND_SIZE {
            Err(Error("Invalid Mach-O LC_SYMTAB command size"))
        } else {
            let st = spec_symtab(c.1, le);
            if st.symoff + st.nsyms * nlist_size(is_64) > d.len() {
                Err(Error("Invalid Mach-O symbol table offset or size"))
            } else if st.stroff + st.strsize > d.len() {
                Err(Error("Invalid Mach-O string table offset or size"))
            } else {
                Ok(ParseModel { sections: s.sections, symtab: Some(st) })
            }
        }
    } else {
        Ok(s)
    }
}

/// The state after the load commands `cs`, or the error of the first one
/// that is malformed.
pub open spec fn parse_fold(d: Seq<u8>, is_64: bool, le: bool, cs: Seq<(u32, Seq<u8>)>) -> Result<ParseModel, Error>
    decreases cs.len(),
{
    if cs.len() == 0 {
        Ok(ParseModel { sections: seq![], symtab: None })
    } else {
        match parse_fold(d, is_64, le, cs.drop_last()) {
            Ok(s) => parse_step(d, is_64, le, s, cs.last()),
            Err(e) => Err(e),
        }
    }
}

/// What parsing the file `d` yields, or the error with which it fails: a
/// header that is cut short or has an unknown magic, a command area or a
/// load command that runs past its end, or a malformed segment or symbol
/// table command.
pub open spec fn spec_parse(d: Seq<u8>) -> Result<ParseModel, Error> {
    let m = spec_magic(d);
    if d.len() < min_header_size() {
        Err(Error("Invalid Mach-O header size or alignment"))
    } else if !(magic_is_32(m) || magic_is_64(m)) {
        Err(Error("Unsupported Mach-O header"))
    } else if d.len() < header_size(magic_is_64(m)) {
        Err(Error("Invalid Mach-O header size or alignment"))
    } else {
        let h = spec_header(d);
        let le = magic_is_little(h.magic as int);
        match command_area(h, d) {
            None => Err(Error("Invalid Mach-O load command table size")),
            Some(a) => match parse_fold(d, h.is_64, le, spec_commands(a, h.ncmds as nat, le)) {
                Err(e) => Err(e),
                Ok(model) => match spec_commands_end(a, h.ncmds as nat, le) {
                    Some(e) => Err(e),
                    None => Ok(model),
                },
            },
        }
    }
}

/// A section together with its 1-based index and its kind.
#[derive(Debug, Clone, Copy)]
pub struct MachOSectionInternal<'data> {
    pub index: SectionIndex,
    pub kind: SectionKind,
    pub section: Section<'data>,
}

impl<'data> MachOSectionInternal<'data> {
    /// Whether this entry describes `m` as the section at 0-based position `i`.
    pub open spec fn describes(self, m: SectionModel, i: int) -> bool {
        &&& self.section@ == m
        &&& self.index.0 == i + 1
        &&& self.kind == spec_section_kind(trim_nul(m.segname), trim_nul(m.sectname))
    }

    /// Classifies `section` and gives it the index `index`.
    pub fn parse(index: SectionIndex, section: Section<'data>) -> (r: Self)
        ensures
            r.index == index,
            r.section == section,
            r.kind == spec_section_kind(trim_nul(section.segname@), trim_nul(section.sectname@)),
    {
        let kind = section_kind(section.segment_name(), section.name());
        MachOSectionInternal { index, kind, section }
    }
}

/// Whether `v` describes the sections `m`, in order.
pub open spec fn sections_describe(v: Seq<MachOSectionInternal>, m: Seq<SectionModel>) -> bool {
    v.len() == m.len() && forall|i: int| 0 <= i < v.len() ==> #[trigger] v[i].describes(m[i], i)
}

/// The symbol records and the string table of a file.
#[derive(Debug, Clone, Copy)]
pub struct SymbolTable<'data> {
    pub symbols: &'data [u8],
    pub nsyms: usize,
    pub strings: &'data [u8],
}

impl<'data> SymbolTable<'data> {
    /// Whether this table holds what `st` places in the file `d`, or is
    /// empty where there is no symbol table command.
    pub open spec fn describes(self, d: Seq<u8>, st: Option<SymtabCommand>, is_64: bool) -> bool {
        match st {
            None => self.nsyms == 0 && self.symbols@.len() == 0 && self.strings@.len() == 0,
            Some(c) => {
                &&& self.nsyms == c.nsyms
                &&& c.symoff + c.nsyms * nlist_size(is_64) <= d.len()
                &&& c.stroff + c.strsize <= d.len()
                &&& self.symbols@.len() == c.nsyms * nlist_size(is_64)
                &&& self.symbols@ == d.subrange(c.symoff as int, c.symoff + c.nsyms * nlist_size(is_64))
                &&& self.strings@ == d.subrange(c.stroff as int, c.stroff + c.strsize)
            },
        }
    }
}

/// A parsed Mach-O file, 32-bit or 64-bit, of either byte order.
#[derive(Debug)]
pub struct MachOFile<'data> {
    endian: Endianness,
    header: MachHeader,
    sections: Vec<MachOSectionInternal<'data>>,
    symbols: SymbolTable<'data>,
    data: &'data [u8],
}

/// Appends the `nsects` section records at the start of `data` to
/// `sections`, numbering them on from the last; an error where `data` does
/// not hold them all.
fn push_sections<'data>(
    sections: &mut Vec<MachOSectionInternal<'data>>,
    data: &'data [u8],
    nsects: u32,
    is_64: bool,
    endian: Endianness,
) -> (r: Result<(), Error>)
    requires
        old(sections)@.len() + data@.len() <= usize::MAX,
    ensures
        r is Ok <==> nsects * section_size(is_64) <= data@.len(),
        r is Err ==> final(sections)@ == old(sections)@ && r->Err_0 == Error("Invalid Mach-O number of sections"),
        r is Ok ==> {
            &&& final(sections)@.len() == old(sections)@.len() + nsects
            &&& final(sections)@.take(old(sections)@.len() as int) == old(sections)@
            &&& forall|i: int| 0 <= i < nsects ==> #[trigger] final(sections)@[old(sections)@.len() + i].describes(
                spec_section(data@, i * section_size(is_64), is_64, endian.spec_is_little()),
                old(sections)@.len() + i,
            )
        },
{
    let size = section_size_of(is_64);
    assert(nsects as u64 * size as u64 <= 0xffff_ffff * 80) by (nonlinear_arith)
        requires nsects <= 0xffff_ffff, size <= 80;
    if read_bytes_at(data, 0, nsects as u64 * size as u64).is_err() {
        return Err(Error("Invalid Mach-O number of sections"));
    }
    let start = sections.len();
    assert(nsects <= nsects * section_size(is_64)) by (nonlinear_arith)
        requires section_size(is_64) >= 1;
    let mut i: usize = 0;
    while i < nsects as usize
        invariant
            i <= nsects,
            nsects * section_size(is_64) <= data.len(),
            size == section_size(is_64),
            start == old(sections)@.len(),
            start + nsects <= usize::MAX,
            sections@.len() == start + i,
            sections@.take(start as int) == old(sections)@,
            forall|k: int| 0 <= k < i ==> #[trigger] sections@[start + k].describes(
                spec_section(data@, k * section_size(is_64), is_64, endian.spec_is_little()),
                start + k,
            ),
        decreases nsects - i,
    {
        proof {
            assert(i * size + size <= nsects * size) by (nonlinear_arith)
                requires i + 1 <= nsects, size >= 0;
        }
        let section = Section::parse(data, i * size, is_64, endian);
        let internal = MachOSectionInternal::parse(SectionIndex(start + i + 1), section);
        sections.push(internal);
        proof {
            assert(sections@.take(start as int) =~= old(sections)@);
            assert(sections@[start + i as int] == internal);
        }
        i = i + 1;
    }
    Ok(())
}

/// Applies the load command `command` of the file `data` to the sections and
/// the symbol table gathered so far, which describe `prev`.
fn apply_command<'data>(
    data: &'data [u8],
    is_64: bool,
    endian: Endianness,
    command: MachOLoadCommand<'data>,
    sections: &mut Vec<MachOSectionInternal<'data>>,
    symbols: &mut SymbolTable<'data>,
    have_symtab: &mut bool,
    Ghost(prev): Ghost<ParseModel>,
) -> (r: Result<(), Error>)
    requires
        command.endian == endian,
        sections_describe(old(sections)@, prev.sections),
        old(symbols).describes(data@, prev.symtab, is_64),
        *old(have_symtab) == prev.symtab is Some,
        old(sections)@.len() + command.data@.len() <= usize::MAX,
    ensures
        r is Ok <==> parse_step(data@, is_64, endian.spec_is_little(), prev, (command.cmd, command.data@)) is Ok,
        r is Err ==> parse_step(data@, is_64, endian.spec_is_little(), prev, (command.cmd, command.data@))
            == Err::<ParseModel, Error>(r->Err_0),
        r is Ok ==> {
            let next = parse_step(data@, is_64, endian.spec_is_little(), prev, (command.cmd, command.data@))->Ok_0;
            &&& sections_describe(final(sections)@, next.sections)
            &&& final(symbols).describes(data@, next.symtab, is_64)
            &&& *final(have_symtab) == next.symtab is Some
            &&& final(sections)@.len() <= old(sections)@.len() + command.data@.len()
        },
{
    let ghost le = endian.spec_is_little();
    match command.segment(is_64) {
        Err(e) => Err(e),
        Ok(Some((segment, section_data))) => {
            let ghost old_sections = sections@;
            push_sections(sections, section_data, segment.nsects, is_64, endian)?;
            proof {
                let ss = segment_sections(command.data@, is_64, le)->Some_0;
                assert(segment.nsects == segment_nsects(command.data@, is_64, le));
                let m2 = prev.sections + ss;
                assert forall|i: int| 0 <= i < sections@.len() implies #[trigger] sections@[i].describes(m2[i], i) by {
                    if i < old_sections.len() {
                        assert(sections@[i] == sections@.take(old_sections.len() as int)[i]);
                    } else {
                        let k = i - old_sections.len();
                        assert(sections@[old_sections.len() + k].describes(
                            spec_section(section_data@, k * section_size(is_64), is_64, le),
                            old_sections.len() + k,
                        ));
                    }
                }
                assert(segment.nsects <= segment.nsects * section_size(is_64)) by (nonlinear_arith)
                    requires section_size(is_64) >= 1;
            }
            Ok(())
        },
        Ok(None) => {
            if *have_symtab {
                return Ok(());
            }
            let symtab = match command.symtab()? {
                Some(symtab) => symtab,
                None => return Ok(()),
            };
            let nlsize = nlist_size_of(is_64);
            assert(symtab.nsyms as u64 * nlsize as u64 <= 0xffff_ffff * 16) by (nonlinear_arith)
                requires symtab.nsyms <= 0xffff_ffff, nlsize <= 16;
            let syms = match read_bytes_at(data, symtab.symoff as u64, symtab.nsyms as u64 * nlsize as u64) {
                Ok(b) => b,
                Err(()) => return Err(Error("Invalid Mach-O symbol table offset or size")),
            };
            let strings = match read_bytes_at(data, symtab.stroff as u64, symtab.strsize as u64) {
                Ok(b) => b,
                Err(()) => return Err(Error("Invalid Mach-O string table offset or size")),
            };
            *symbols = SymbolTable { symbols: syms, nsyms: symtab.nsyms as usize, strings };
            *have_symtab = true;
            Ok(())
        },
    }
}

proof fn lemma_fold_fails_on(d: Seq<u8>, is_64: bool, le: bool, a: Seq<(u32, Seq<u8>)>, b: Seq<(u32, Seq<u8>)>)
    requires
        parse_fold(d, is_64, le, a) is Err,
    ensures
        parse_fold(d, is_64, le, a + b) == parse_fold(d, is_64, le, a),
    decreases b.len(),
{
    if b.len() > 0 {
        lemma_fold_fails_on(d, is_64, le, a, b.drop_last());
        assert((a + b).drop_last() =~= a + b.drop_last());
    } else {
        assert(a + b =~= a);
    }
}

impl<'data> MachOFile<'data> {
    #[verifier::type_invariant]
    closed spec fn inv(self) -> bool {
        self.wf()
    }

    /// Whether the file's state is what parsing its bytes gives.
    pub closed spec fn wf(self) -> bool {
        let d = self.data@;
        &&& spec_parse(d) is Ok
        &&& self.header == spec_header(d)
        &&& self.endian == self.header.spec_endian()
        &&& sections_describe(self.sections@, spec_parse(d)->Ok_0.sections)
        &&& self.symbols.describes(d, spec_parse(d)->Ok_0.symtab, self.header.is_64)
    }

    /// The bytes of the file.
    pub closed spec fn bytes(self) -> Seq<u8> {
        self.data@
    }

    /// Parses the Mach-O file in `data`, 32-bit or 64-bit, of either byte
    /// order: the header, then the load commands, gathering the sections of
    /// every segment and the first symbol table. A header that is cut short
    /// or has an unknown magic, a command area or load command that runs
    /// past the end, or a malformed segment or symbol table command fails
    /// the parse, with the error that `spec_parse` gives.
    pub fn parse(data: &'data [u8]) -> (r: Result<MachOFile<'data>, Error>)
        ensures
            r is Ok <==> spec_parse(data@) is Ok,
            r is Err ==> spec_parse(data@) == Err::<ParseModel, Error>(r->Err_0),
            r matches Ok(f) ==> {
                &&& f.bytes() == data@
                &&& f.wf()
                &&& sections_describe(f.spec_sections(), spec_parse(data@)->Ok_0.sections)
                &&& f.symtab_is(spec_parse(data@)->Ok_0.symtab)
            },
    {
        if data.len() < 28 {
            return Err(Error("Invalid Mach-O header size or alignment"));
        }
        let magic = read_u32(data, 0, Endianness::Big);
        if !(magic == MH_MAGIC || magic == MH_CIGAM || magic == MH_MAGIC_64 || magic == MH_CIGAM_64) {
            return Err(Error("Unsupported Mach-O header"));
        }
        let header = match MachHeader::parse(data) {
            Ok(h) => h,
            Err(()) => return Err(Error("Invalid Mach-O header size or alignment")),
        };
        let endian = header.endian();
        let is_64 = header.is_64;
        let ghost d = data@;
        let ghost le = endian.spec_is_little();
        assert(le == magic_is_little(header.magic as int));
        let empty = slice_subrange(data, 0, 0);
        let mut symbols = SymbolTable { symbols: empty, nsyms: 0, strings: empty };
        let mut have_symtab = false;
        let mut sections: Vec<MachOSectionInternal<'data>> = Vec::new();
        let ghost mut consumed: Seq<(u32, Seq<u8>)> = seq![];
        let mut commands = match header.load_commands(endian, data) {
            Ok(commands) => commands,
            Err(e) => return Err(e),
        };
        let ghost area = commands.data@;
        let ghost n0 = header.ncmds as nat;
        let ghost mut used: int = 0;
        assert(consumed + commands.remaining() =~= file_commands(d));
        loop
            invariant
                header == spec_header(d),
                header_ok(d),
                command_area(header, d) == Some(area),
                endian == header.spec_endian(),
                le == endian.spec_is_little(),
                is_64 == header.is_64,
                d == data@,
                commands.endian == endian,
                consumed + commands.remaining() == file_commands(d),
                file_commands(d) == spec_commands(area, n0, le),
                n0 == header.ncmds,
                spec_commands_end(area, n0, le) == spec_commands_end(commands.data@, commands.ncmds as nat, le),
                parse_fold(d, is_64, le, consumed) matches Ok(m) && sections_describe(sections@, m.sections)
                    && symbols.describes(d, m.symtab, is_64) && have_symtab == m.symtab is Some,
                used + commands.data@.len() == area.len(),
                area.len() <= data.len(),
                sections@.len() <= used,
                0 <= used,
            ensures
                consumed == file_commands(d),
                spec_commands_end(area, n0, le) is None,
                parse_fold(d, is_64, le, consumed) matches Ok(m) && sections_describe(sections@, m.sections)
                    && symbols.describes(d, m.symtab, is_64),
            decreases commands.ncmds,
        {
            let ghost before = commands;
            let command = match commands.next() {
                Ok(Some(c)) => c,
                Ok(None) => {
                    assert(commands.remaining() =~= seq![]);
                    assert(consumed + commands.remaining() =~= consumed);
                    break;
                },
                Err(e) => {
                    proof {
                        assert(commands.remaining() =~= seq![]);
                        assert(consumed + commands.remaining() =~= consumed);
                    }
                    return Err(e);
                },
            };
            let ghost prev = parse_fold(d, is_64, le, consumed)->Ok_0;
            proof {
                let c = (command.cmd, command.data@);
                assert(consumed.push(c).drop_last() =~= consumed);
                assert(consumed.push(c) + commands.remaining() =~= consumed + before.remaining());
                consumed = consumed.push(c);
                used = used + command.data@.len();
            }
            let applied = apply_command(
                data,
                is_64,
                endian,
                command,
                &mut sections,
                &mut symbols,
                &mut have_symtab,
                Ghost(prev),
            );
            if applied.is_err() {
                proof {
                    lemma_fold_fails_on(d, is_64, le, consumed, commands.remaining());
                    assert(consumed + commands.remaining() == file_commands(d));
                }
                return Err(applied.unwrap_err());
            }
        }
        let file = MachOFile { endian, header, sections, symbols, data };
        proof {
            file.lemma_symtab_is();
        }
        Ok(file)
    }
}

impl<'data> MachOFile<'data> {
    /// Whether the file's symbol table is the one that `st` places in its
    /// bytes, or is empty where `st` is `None`.
    pub open spec fn symtab_is(self, st: Option<SymtabCommand>) -> bool {
        let d = self.bytes();
        let is_64 = spec_header(d).is_64;
        match st {
            None => self.spec_nsyms() == 0 && self.spec_strings().len() == 0,
            Some(c) => {
                &&& self.spec_nsyms() == c.nsyms
                &&& self.spec_strings() == d.subrange(c.stroff as int, c.stroff + c.strsize)
                &&& forall|i: int| 0 <= i < c.nsyms ==> #[trigger] self.spec_nlist_at(i) == spec_nlist(
                    d,
                    c.symoff + i * nlist_size(is_64),
                    is_64,
                    file_le(d),
                )
            },
        }
    }

    proof fn lemma_symtab_is(self)
        requires
            self.wf(),
        ensures
            self.symtab_is(spec_parse(self.bytes())->Ok_0.symtab),
    {
        let d = self.bytes();
        let is_64 = spec_header(d).is_64;
        let size = nlist_size(is_64);
        if let Some(c) = spec_parse(d)->Ok_0.symtab {
            let sub = self.symbols.symbols@;
            assert forall|i: int| 0 <= i < c.nsyms implies #[trigger] self.spec_nlist_at(i) == spec_nlist(
                d,
                c.symoff + i * size,
                is_64,
                file_le(d),
            ) by {
                assert(i * size + size <= c.nsyms * size) by (nonlinear_arith)
                    requires 0 <= i < c.nsyms, size >= 0;
                assert(0 <= i * size) by (nonlinear_arith)
                    requires 0 <= i, size >= 0;
                let off = i * size;
                assert forall|k: int| 0 <= k < size implies #[trigger] sub[off + k] == d[c.symoff + off + k] by {}
            }
        }
    }
}

/// The architecture that a CPU type names.
pub open spec fn spec_architecture(cputype: u32) -> Architecture {
    if cputype == CPU_TYPE_ARM {
        Architecture::Arm
    } else if cputype == CPU_TYPE_ARM64 {
        Architecture::Aarch64
    } else if cputype == CPU_TYPE_X86 {
        Architecture::I386
    } else if cputype == CPU_TYPE_X86_64 {
        Architecture::X86_64
    } else if cputype == CPU_TYPE_MIPS {
        Architecture::Mips
    } else {
        Architecture::Unknown
    }
}

/// Whether the file `d` is little-endian.
pub open spec fn file_le(d: Seq<u8>) -> bool {
    magic_is_little(spec_header(d).magic as int)
}

/// Whether iterating over the load commands of the file `d` ends in an
/// error: the command area runs past the end of the file, or a command in
/// it is cut short.
pub open spec fn file_commands_fail(d: Seq<u8>) -> bool {
    let h = spec_header(d);
    match command_area(h, d) {
        Some(a) => spec_commands_fail(a, h.ncmds as nat, file_le(d)),
        None => true,
    }
}

/// The entry point offset of the first well-formed `LC_MAIN` command in
/// `cs`, or 0 where there is none.
pub open spec fn spec_entry(cs: Seq<(u32, Seq<u8>)>, le: bool) -> u64
    decreases cs.len(),
{
    if cs.len() == 0 {
        0
    } else if cs[0].0 == LC_MAIN && cs[0].1.len() >= ENTRY_POINT_COMMAND_SIZE {
        spec_entry_point(cs[0].1, le).entryoff
    } else {
        spec_entry(cs.drop_first(), le)
    }
}

/// The UUID of the first `LC_UUID` command in `cs`: an error where that
/// command is cut short, or where there is none and the commands `cs` ended
/// in an error (`fails`).
pub open spec fn spec_uuid(cs: Seq<(u32, Seq<u8>)>, fails: bool) -> Result<Option<Seq<u8>>, ()>
    decreases cs.len(),
{
    if cs.len() == 0 {
        if fails { Err(()) } else { Ok(None) }
    } else if cs[0].0 == LC_UUID {
        if cs[0].1.len() < UUID_COMMAND_SIZE { Err(()) } else { Ok(Some(cs[0].1.subrange(8, 24))) }
    } else {
        spec_uuid(cs.drop_first(), fails)
    }
}

/// Whether the section name `name` answers the query `q`: it is valid
/// UTF-8 and equal to `q`, or `q` starts with `.`, `name` with `__`, and
/// the rests are equal (`.debug_info` asks for `__debug_info`).
pub open spec fn name_matches(q: Seq<u8>, name: Seq<u8>) -> bool {
    &&& valid_utf8(name)
    &&& (name == q || (q.len() >= 1 && q[0] == 0x2e && name.len() >= 2 && name[0] == 0x5f
        && name[1] == 0x5f && q.skip(1) == name.skip(2)))
}

/// The name `.debug_info`.
pub open spec fn debug_info_name() -> Seq<u8> {
    seq![0x2e, 0x64, 0x65, 0x62, 0x75, 0x67, 0x5f, 0x69, 0x6e, 0x66, 0x6fu8]
}

impl<'data> MachOFile<'data> {
    /// The sections of the file, in the order of their indices.
    pub closed spec fn spec_sections(self) -> Seq<MachOSectionInternal<'data>> {
        self.sections@
    }

    /// The section whose 1-based index is `index`.
    pub open spec fn spec_section_at(self, index: int) -> Option<MachOSectionInternal<'data>> {
        if 1 <= index <= self.spec_sections().len() {
            Some(self.spec_sections()[index - 1])
        } else {
            None
        }
    }

    /// Returns the section whose 1-based index is `index`.
    pub fn section_internal(&self, index: SectionIndex) -> (r: Result<&MachOSectionInternal<'data>, Error>)
        ensures
            r is Ok <==> self.spec_section_at(index.0 as int) is Some,
            r is Err ==> r->Err_0 == Error("Invalid Mach-O section index"),
            r matches Ok(s) ==> Some(*s) == self.spec_section_at(index.0 as int),
    {
        if index.0 == 0 || index.0 > self.sections.len() {
            return Err(Error("Invalid Mach-O section index"));
        }
        Ok(&self.sections[index.0 - 1])
    }

    /// The architecture that the header's CPU type names.
    pub fn architecture(&self) -> (r: Architecture)
        ensures
            r == spec_architecture(spec_header(self.bytes()).cputype),
    {
        proof {
            use_type_invariant(self);
        }
        let cputype = self.header.cputype;
        if cputype == CPU_TYPE_ARM {
            Architecture::Arm
        } else if cputype == CPU_TYPE_ARM64 {
            Architecture::Aarch64
        } else if cputype == CPU_TYPE_X86 {
            Architecture::I386
        } else if cputype == CPU_TYPE_X86_64 {
            Architecture::X86_64
        } else if cputype == CPU_TYPE_MIPS {
            Architecture::Mips
        } else {
            Architecture::Unknown
        }
    }

    /// Whether the file is little-endian.
    pub fn is_little_endian(&self) -> (r: bool)
        ensures
            r == file_le(self.bytes()),
    {
        proof {
            use_type_invariant(self);
        }
        self.header.is_little_endian()
    }

    /// Whether the file uses the 64-bit layout.
    pub fn is_64(&self) -> (r: bool)
        ensures
            r == spec_header(self.bytes()).is_64,
    {
        proof {
            use_type_invariant(self);
        }
        self.header.is_type_64()
    }

    /// The header's flags.
    pub fn flags(&self) -> (r: FileFlags)
        ensures
            r == (FileFlags::MachO { flags: spec_header(self.bytes()).flags }),
    {
        proof {
            use_type_invariant(self);
        }
        FileFlags::MachO { flags: self.header.flags }
    }

    /// The entry point offset of the first well-formed `LC_MAIN` command,
    /// or 0 where there is none.
    pub fn entry(&self) -> (r: u64)
        ensures
            r == spec_entry(file_commands(self.bytes()), file_le(self.bytes())),
    {
        proof {
            use_type_invariant(self);
        }
        let ghost le = file_le(self.bytes());
        let loaded = self.header.load_commands(self.endian, self.data);
        let mut commands = match loaded {
            Ok(commands) => commands,
            Err(_) => return 0,
        };
        loop
            invariant
                commands.endian == self.endian,
                le == self.endian.spec_is_little(),
                le == file_le(self.bytes()),
                spec_entry(file_commands(self.bytes()), le) == spec_entry(commands.remaining(), le),
            ensures
                spec_entry(file_commands(self.bytes()), le) == 0,
            decreases commands.ncmds,
        {
            let ghost before = commands;
            let command = match commands.next() {
                Ok(Some(c)) => c,
                _ => {
                    assert(commands.remaining() =~= seq![]);
                    break;
                },
            };
            let ghost c = (command.cmd, command.data@);
            assert(before.remaining() == seq![c] + commands.remaining());
            assert(before.remaining()[0] == c);
            assert(before.remaining().drop_first() =~= commands.remaining());
            let main = command.entry_point();
            if let Ok(Some(main)) = main {
                assert(command.cmd == LC_MAIN);
                assert(command.data@.len() >= ENTRY_POINT_COMMAND_SIZE);
                assert(main == spec_entry_point(command.data@, le));
                return main.entryoff;
            }
        }
        0
    }

    /// The UUID of the first `LC_UUID` command; an error where the command
    /// area or a command before it, or that command itself, is cut short.
    pub fn mach_uuid(&self) -> (r: Result<Option<[u8; 16]>, Error>)
        ensures
            r is Err <==> spec_uuid(file_commands(self.bytes()), file_commands_fail(self.bytes())) is Err,
            r matches Ok(u) ==> spec_uuid(file_commands(self.bytes()), file_commands_fail(self.bytes()))
                == Ok::<Option<Seq<u8>>, ()>(match u {
                    Some(a) => Some(a@),
                    None => None,
                }),
    {
        proof {
            use_type_invariant(self);
        }
        let ghost le = file_le(self.bytes());
        let ghost want = spec_uuid(file_commands(self.bytes()), file_commands_fail(self.bytes()));
        let mut commands = match self.header.load_commands(self.endian, self.data) {
            Ok(commands) => commands,
            Err(e) => return Err(e),
        };
        loop
            invariant
                commands.endian == self.endian,
                le == self.endian.spec_is_little(),
                want == spec_uuid(file_commands(self.bytes()), file_commands_fail(self.bytes())),
                want == spec_uuid(commands.remaining(), spec_commands_fail(commands.data@, commands.ncmds as nat, le)),
            decreases commands.ncmds,
        {
            let ghost before = commands;
            let command = match commands.next() {
                Ok(Some(c)) => c,
                Ok(None) => {
                    assert(before.remaining() =~= seq![]);
                    assert(!spec_commands_fail(before.data@, 0, le));
                    return Ok(None);
                },
                Err(e) => {
                    assert(before.remaining() =~= seq![]);
                    return Err(e);
                },
            };
            let ghost c = (command.cmd, command.data@);
            assert(before.remaining() == seq![c] + commands.remaining());
            assert(before.remaining()[0] == c);
            assert(before.remaining().drop_first() =~= commands.remaining());
            if let Some(uuid) = command.uuid()? {
                return Ok(Some(uuid.uuid));
            }
        }
    }
}

/// A section of a `MachOFile`.
#[derive(Debug, Clone, Copy)]
pub struct MachOSection<'data, 'file> {
    file: &'file MachOFile<'data>,
    internal: MachOSectionInternal<'data>,
}

impl<'data, 'file> MachOSection<'data, 'file> {
    /// The file that holds the section.
    pub closed spec fn spec_file(self) -> &'file MachOFile<'data> {
        self.file
    }

    /// The section's index, kind and record.
    pub closed spec fn spec_internal(self) -> MachOSectionInternal<'data> {
        self.internal
    }

    /// The section's record.
    pub open spec fn record(self) -> SectionModel {
        self.spec_internal().section@
    }

    /// The 1-based index of the section.
    pub fn index(&self) -> (r: SectionIndex)
        ensures
            r == self.spec_internal().index,
    {
        self.internal.index
    }

    /// The address of the section.
    pub fn address(&self) -> (r: u64)
        ensures
            r == self.record().addr,
    {
        self.internal.section.addr
    }

    /// The size of the section.
    pub fn size(&self) -> (r: u64)
        ensures
            r == self.record().size,
    {
        self.internal.section.size
    }

    /// The alignment of the section: two to the power of its `align` field,
    /// or 0 where that power does not fit in 64 bits.
    pub fn align(&self) -> (r: u64)
        ensures
            r == if self.record().align < 64 { 1u64 << (self.record().align as u64) } else { 0 },
    {
        let a = self.internal.section.align;
        if a < 64 {
            1u64 << (a as u64)
        } else {
            0
        }
    }

    /// The offset and size of the section in the file; `None` for the
    /// zero-fill types.
    pub fn file_range(&self) -> (r: Option<(u64, u64)>)
        ensures
            r is None <==> self.record().file_range() is None,
            r matches Some(p) ==> self.record().file_range() == Some((p.0 as int, p.1 as int)),
    {
        self.internal.section.file_range()
    }

    /// The contents of the section: the `size` bytes at `offset` in the
    /// file, or no bytes for the zero-fill types; `None` where they run past
    /// the end of the file.
    pub open spec fn spec_data(self) -> Option<Seq<u8>> {
        let d = self.spec_file().bytes();
        match self.record().file_range() {
            None => Some(seq![]),
            Some((off, size)) => if off + size <= d.len() {
                Some(d.subrange(off, off + size))
            } else {
                None
            },
        }
    }

    /// Reads the section's contents from the file.
    fn bytes(&self) -> (r: Result<&'data [u8], Error>)
        ensures
            r is Ok <==> self.spec_data() is Some,
            r is Err ==> r->Err_0 == Error("Invalid Mach-O section size or offset"),
            r matches Ok(b) ==> Some(b@) == self.spec_data(),
    {
        let data = self.file.data;
        match self.internal.section.file_range() {
            None => {
                let empty = slice_subrange(data, 0, 0);
                assert(empty@ =~= seq![]);
                Ok(empty)
            },
            Some((offset, size)) => match read_bytes_at(data, offset, size) {
                Ok(b) => Ok(b),
                Err(()) => Err(Error("Invalid Mach-O section size or offset")),
            },
        }
    }

    /// The contents of the section: the `size` bytes at `offset` in the
    /// file, or no bytes for the zero-fill types; an error where they run
    /// past the end of the file.
    pub fn data(&self) -> (r: Result<&'data [u8], Error>)
        ensures
            r is Ok <==> self.spec_data() is Some,
            r is Err ==> r->Err_0 == Error("Invalid Mach-O section size or offset"),
            r matches Ok(b) ==> Some(b@) == self.spec_data(),
    {
        self.bytes()
    }

    /// The `size` bytes of the section's contents at `address`; `None`
    /// where that range is not within the section.
    pub fn data_range(&self, address: u64, size: u64) -> (r: Result<Option<&'data [u8]>, Error>)
        ensures
            r is Err <==> self.spec_data() is None,
            r is Err ==> r->Err_0 == Error("Invalid Mach-O section size or offset"),
            r matches Ok(v) ==> {
                let b = self.spec_data()->Some_0;
                let start = address - self.record().addr;
                &&& v is Some <==> (self.record().addr <= address && start + size <= b.len())
                &&& v matches Some(part) ==> part@ == b.subrange(start, start + size)
            },
    {
        let data = self.data()?;
        Ok(data_range(data, self.address(), address, size))
    }

    /// The section name; an error where it is not valid UTF-8.
    pub fn name(&self) -> (r: Result<&'data str, Error>)
        ensures
            r is Ok <==> valid_utf8(trim_nul(self.record().sectname)),
            r is Err ==> r->Err_0 == Error("Non UTF-8 Mach-O section name"),
            r matches Ok(s) ==> s.spec_bytes() == trim_nul(self.record().sectname),
    {
        match decode_utf8(self.internal.section.name()) {
            Some(s) => Ok(s),
            None => Err(Error("Non UTF-8 Mach-O section name")),
        }
    }

    /// The name of the segment that holds the section; an error where it is
    /// not valid UTF-8.
    pub fn segment_name(&self) -> (r: Result<Option<&'data str>, Error>)
        ensures
            r is Ok <==> valid_utf8(trim_nul(self.record().segname)),
            r is Err ==> r->Err_0 == Error("Non UTF-8 Mach-O segment name"),
            r matches Ok(v) ==> (v matches Some(s) && s.spec_bytes() == trim_nul(self.record().segname)),
    {
        match decode_utf8(self.internal.section.segment_name()) {
            Some(s) => Ok(Some(s)),
            None => Err(Error("Non UTF-8 Mach-O segment name")),
        }
    }

    /// The kind of the section.
    pub fn kind(&self) -> (r: SectionKind)
        ensures
            r == self.spec_internal().kind,
    {
        self.internal.kind
    }

    /// The section's flags.
    pub fn flags(&self) -> (r: SectionFlags)
        ensures
            r == (SectionFlags::MachO { flags: self.record().flags as u32 }),
    {
        SectionFlags::MachO { flags: self.internal.section.flags }
    }

    /// An iterator over the section's relocations. Where the relocation
    /// entries run past the end of the file, there are none.
    pub fn relocations(&self) -> (r: MachORelocationIterator<'data>)
        ensures
            r.offset == 0,
            r.cputype == spec_header(self.spec_file().bytes()).cputype,
            r.endian.spec_is_little() == file_le(self.spec_file().bytes()),
            ({
                let d = self.spec_file().bytes();
                let (off, n) = (self.record().reloff, self.record().nreloc);
                if off + n * RELOCATION_SIZE <= d.len() {
                    r.data@ == d.subrange(off, off + n * RELOCATION_SIZE)
                } else {
                    r.data@.len() == 0
                }
            }),
    {
        let file = self.file;
        proof {
            use_type_invariant(file);
        }
        let section = self.internal.section;
        assert(section.nreloc as u64 * 8 <= 0xffff_ffff * 8) by (nonlinear_arith)
            requires section.nreloc <= 0xffff_ffff;
        let data = match read_bytes_at(file.data, section.reloff as u64, section.nreloc as u64 * 8) {
            Ok(b) => b,
            Err(()) => slice_subrange(file.data, 0, 0),
        };
        MachORelocationIterator { cputype: file.header.cputype, endian: file.endian, data, offset: 0 }
    }
}

/// An iterator over the sections of a `MachOFile`.
#[derive(Debug)]
pub struct MachOSectionIterator<'data, 'file> {
    file: &'file MachOFile<'data>,
    index: usize,
}

impl<'data, 'file> MachOSectionIterator<'data, 'file> {
    /// The file whose sections are iterated.
    pub closed spec fn spec_file(self) -> &'file MachOFile<'data> {
        self.file
    }

    /// The number of sections already yielded.
    pub closed spec fn position(self) -> int {
        self.index as int
    }

    /// Yields the next section, in the order of the indices.
    pub fn next(&mut self) -> (r: Option<MachOSection<'data, 'file>>)
        ensures
            final(self).spec_file() == old(self).spec_file(),
            old(self).position() < old(self).spec_file().spec_sections().len() ==> {
                &&& r matches Some(s) && s.spec_file() == old(self).spec_file()
                    && s.spec_internal() == old(self).spec_file().spec_sections()[old(self).position()]
                &&& final(self).position() == old(self).position() + 1
            },
            old(self).position() >= old(self).spec_file().spec_sections().len() ==> r is None
                && final(self).position() == old(self).position(),
    {
        if self.index < self.file.sections.len() {
            let internal = self.file.sections[self.index];
            self.index = self.index + 1;
            Some(MachOSection { file: self.file, internal })
        } else {
            None
        }
    }
}

impl<'data> MachOFile<'data> {
    /// An iterator over the sections, in the order of their indices.
    pub fn sections<'file>(&'file self) -> (r: MachOSectionIterator<'data, 'file>)
        ensures
            r.spec_file() == self,
            r.position() == 0,
    {
        MachOSectionIterator { file: self, index: 0 }
    }

    /// The section whose 1-based index is `index`; an error where there is
    /// none.
    pub fn section_by_index<'file>(&'file self, index: SectionIndex) -> (r: Result<MachOSection<'data, 'file>, Error>)
        ensures
            r is Ok <==> self.spec_section_at(index.0 as int) is Some,
            r is Err ==> r->Err_0 == Error("Invalid Mach-O section index"),
            r matches Ok(s) ==> s.spec_file() == self && Some(s.spec_internal()) == self.spec_section_at(
                index.0 as int,
            ),
    {
        let internal = *self.section_internal(index)?;
        Ok(MachOSection { file: self, internal })
    }

    /// Whether the `i`-th section answers the name query `q`.
    pub open spec fn section_matches(self, q: Seq<u8>, i: int) -> bool {
        name_matches(q, trim_nul(self.spec_sections()[i].section.sectname@))
    }

    /// The first section whose name answers the query `q`.
    fn section_by_name_bytes<'file>(&'file self, q: &[u8]) -> (r: Option<MachOSection<'data, 'file>>)
        ensures
            r is Some <==> exists|i: int| 0 <= i < self.spec_sections().len() && self.section_matches(q@, i),
            r matches Some(s) ==> s.spec_file() == self && exists|i: int| {
                &&& 0 <= i < self.spec_sections().len()
                &&& self.section_matches(q@, i)
                &&& s.spec_internal() == self.spec_sections()[i]
                &&& forall|j: int| 0 <= j < i ==> !self.section_matches(q@, j)
            },
    {
        let system = q.len() >= 1 && q[0] == 0x2e;
        let mut i: usize = 0;
        while i < self.sections.len()
            invariant
                i <= self.sections@.len(),
                system == (q@.len() >= 1 && q@[0] == 0x2e),
                forall|j: int| 0 <= j < i ==> !self.section_matches(q@, j),
            decreases self.sections@.len() - i,
        {
            let internal = self.sections[i];
            let name = internal.section.name();
            let valid = decode_utf8(name).is_some();
            let mut found = valid && bytes_eq(name, q);
            if valid && !found && system && name.len() >= 2 && name[0] == 0x5f && name[1] == 0x5f {
                let name_rest = slice_subrange(name, 2, name.len());
                let q_rest = slice_subrange(q, 1, q.len());
                found = bytes_eq(name_rest, q_rest);
                assert(name_rest@ =~= name@.skip(2));
                assert(q_rest@ =~= q@.skip(1));
            }
            assert(found == self.section_matches(q@, i as int));
            if found {
                return Some(MachOSection { file: self, internal });
            }
            i = i + 1;
        }
        None
    }

    /// The first section whose name is `section_name`. A name that starts
    /// with `.` also finds the section of the same name that starts with
    /// `__` in its place (`.debug_info` finds `__debug_info`).
    pub fn section_by_name<'file>(&'file self, section_name: &str) -> (r: Option<MachOSection<'data, 'file>>)
        ensures
            r is Some <==> exists|i: int| 0 <= i < self.spec_sections().len() && self.section_matches(section_name.spec_bytes(), i),
            r matches Some(s) ==> s.spec_file() == self && exists|i: int| {
                &&& 0 <= i < self.spec_sections().len()
                &&& self.section_matches(section_name.spec_bytes(), i)
                &&& s.spec_internal() == self.spec_sections()[i]
                &&& forall|j: int| 0 <= j < i ==> !self.section_matches(section_name.spec_bytes(), j)
            },
    {
        self.section_by_name_bytes(section_name.as_bytes())
    }

    /// Whether the file has a `.debug_info` (`__debug_info`) section.
    pub fn has_debug_symbols(&self) -> (r: bool)
        ensures
            r == exists|i: int| 0 <= i < self.spec_sections().len() && self.section_matches(debug_info_name(), i),
    {
        let name: [u8; 11] = [0x2e, 0x64, 0x65, 0x62, 0x75, 0x67, 0x5f, 0x69, 0x6e, 0x66, 0x6f];
        assert(name@ =~= debug_info_name());
        self.section_by_name_bytes(&name).is_some()
    }
}

/// Where the symbol that `n` describes is defined, in a file with
/// `nsections` sections: a section index outside `1..=nsections` leaves it
/// unknown.
pub open spec fn spec_symbol_section(n: Nlist, nsections: int) -> SymbolSection {
    let t = n.n_type & N_TYPE;
    if t == N_UNDF {
        SymbolSection::Undefined
    } else if t == N_ABS {
        SymbolSection::Absolute
    } else if t == N_SECT {
        if n.n_sect != 0 && n.n_sect <= nsections {
            SymbolSection::Section(SectionIndex(n.n_sect as usize))
        } else {
            SymbolSection::Unknown
        }
    } else {
        SymbolSection::Unknown
    }
}

/// The scope of the symbol that `n` describes.
pub open spec fn spec_symbol_scope(n: Nlist) -> SymbolScope {
    if n.n_type & N_TYPE == N_UNDF {
        SymbolScope::Unknown
    } else if n.n_type & N_EXT == 0 {
        SymbolScope::Compilation
    } else if n.n_type & N_PEXT != 0 {
        SymbolScope::Linkage
    } else {
        SymbolScope::Dynamic
    }
}

/// Whether `n` is a debugging entry, which is not a symbol.
pub open spec fn is_stab(n: Nlist) -> bool {
    n.n_type & N_STAB != 0
}

impl<'data> MachOFile<'data> {
    /// The number of entries in the symbol table.
    pub closed spec fn spec_nsyms(self) -> nat {
        self.symbols.nsyms as nat
    }

    /// The string table.
    pub closed spec fn spec_strings(self) -> Seq<u8> {
        self.symbols.strings@
    }

    /// The `i`-th entry of the symbol table.
    pub closed spec fn spec_nlist_at(self, i: int) -> Nlist {
        let is_64 = spec_header(self.bytes()).is_64;
        spec_nlist(self.symbols.symbols@, i * nlist_size(is_64), is_64, file_le(self.bytes()))
    }

    /// The kind of a symbol defined in `section`: by the kind of that
    /// section where it is one of the file's.
    pub open spec fn spec_symbol_kind_in(self, section: SymbolSection) -> SymbolKind {
        match section {
            SymbolSection::Section(index) => match self.spec_section_at(index.0 as int) {
                Some(s) => spec_symbol_kind(s.kind),
                None => SymbolKind::Unknown,
            },
            _ => SymbolKind::Unknown,
        }
    }

    /// Whether `sym`, but for its size, is the symbol that `n` describes.
    pub open spec fn symbol_describes(self, n: Nlist, sym: Symbol<'data>) -> bool {
        let name = string_at(self.spec_strings(), n.n_strx as int);
        &&& sym.name is Some <==> (name is Some && valid_utf8(name->Some_0))
        &&& sym.name matches Some(t) ==> t.spec_bytes() == name->Some_0
        &&& sym.address == n.n_value
        &&& sym.kind == self.spec_symbol_kind_in(spec_symbol_section(n, self.spec_sections().len() as int))
        &&& sym.section == spec_symbol_section(n, self.spec_sections().len() as int)
        &&& sym.weak == (n.n_desc & (N_WEAK_REF | N_WEAK_DEF) != 0)
        &&& sym.scope == spec_symbol_scope(n)
        &&& sym.flags == (SymbolFlags::MachO { n_desc: n.n_desc })
    }

    /// The symbol that the `i`-th entry of the symbol table describes.
    fn nlist_at(&self, i: usize) -> (r: Nlist)
        requires
            i < self.spec_nsyms(),
        ensures
            r == self.spec_nlist_at(i as int),
    {
        proof {
            use_type_invariant(self);
        }
        let is_64 = self.header.is_64;
        let size = nlist_size_of(is_64);
        assert(i * size + size <= self.symbols.nsyms * size) by (nonlinear_arith)
            requires i + 1 <= self.symbols.nsyms, size >= 0;
        assert(self.symbols.symbols@.len() == self.symbols.nsyms * size);
        assert(i * size <= self.symbols.symbols.len());
        Nlist::parse(self.symbols.symbols, i * size, is_64, self.endian)
    }
}

/// The symbol that the table entry `nlist` of `file` describes; `None` for a
/// debugging entry. A name that is missing or not valid UTF-8 leaves the
/// symbol without a name.
pub fn parse_symbol<'data>(file: &MachOFile<'data>, nlist: Nlist) -> (r: Option<Symbol<'data>>)
    ensures
        r is None <==> is_stab(nlist),
        r matches Some(sym) ==> file.symbol_describes(nlist, sym) && sym.size == 0,
{
    let strings = file.symbols.strings;
    let name = match string_table_get(strings, nlist.n_strx) {
        Some(b) => decode_utf8(b),
        None => None,
    };
    let n_type = nlist.n_type;
    let n_desc = nlist.n_desc;
    if n_type & N_STAB != 0 {
        return None;
    }
    let t = n_type & N_TYPE;
    let section = if t == N_UNDF {
        SymbolSection::Undefined
    } else if t == N_ABS {
        SymbolSection::Absolute
    } else if t == N_SECT {
        if nlist.n_sect != 0 && nlist.n_sect as usize <= file.sections.len() {
            SymbolSection::Section(SectionIndex(nlist.n_sect as usize))
        } else {
            SymbolSection::Unknown
        }
    } else {
        SymbolSection::Unknown
    };
    let kind = match section {
        SymbolSection::Section(index) => match file.section_internal(index) {
            Ok(s) => symbol_kind(s.kind),
            Err(_) => SymbolKind::Unknown,
        },
        _ => SymbolKind::Unknown,
    };
    let weak = n_desc & (N_WEAK_REF | N_WEAK_DEF) != 0;
    let scope = if section == SymbolSection::Undefined {
        SymbolScope::Unknown
    } else if n_type & N_EXT == 0 {
        SymbolScope::Compilation
    } else if n_type & N_PEXT != 0 {
        SymbolScope::Linkage
    } else {
        SymbolScope::Dynamic
    };
    Some(Symbol {
        name,
        address: nlist.n_value,
        size: 0,
        kind,
        section,
        weak,
        scope,
        flags: SymbolFlags::MachO { n_desc },
    })
}

/// An iterator over the symbols of a `MachOFile`, debugging entries left
/// out.
#[derive(Debug)]
pub struct MachOSymbolIterator<'data, 'file> {
    file: &'file MachOFile<'data>,
    index: usize,
}

impl<'data, 'file> MachOSymbolIterator<'data, 'file> {
    /// The file whose symbols are iterated.
    pub closed spec fn spec_file(self) -> &'file MachOFile<'data> {
        self.file
    }

    /// The index of the next table entry to look at.
    pub closed spec fn position(self) -> int {
        self.index as int
    }

    /// Yields the next symbol with its index in the symbol table, skipping
    /// debugging entries.
    pub fn next(&mut self) -> (r: Option<(SymbolIndex, Symbol<'data>)>)
        ensures
            final(self).spec_file() == old(self).spec_file(),
            final(self).position() >= old(self).position(),
            ({
                let f = old(self).spec_file();
                match r {
                    Some((index, sym)) => {
                        &&& old(self).position() <= index.0 < f.spec_nsyms()
                        &&& final(self).position() == index.0 + 1
                        &&& !is_stab(f.spec_nlist_at(index.0 as int))
                        &&& f.symbol_describes(f.spec_nlist_at(index.0 as int), sym)
                        &&& sym.size == 0
                        &&& forall|j: int| old(self).position() <= j < index.0 ==> is_stab(#[trigger] f.spec_nlist_at(j))
                    },
                    None => {
                        &&& final(self).position() >= f.spec_nsyms()
                        &&& forall|j: int| old(self).position() <= j < f.spec_nsyms() ==> is_stab(#[trigger] f.spec_nlist_at(j))
                    },
                }
            }),
    {
        while self.index < self.file.symbols.nsyms
            invariant
                self.file == old(self).file,
                self.index >= old(self).index,
                forall|j: int| old(self).index <= j < self.index ==> is_stab(#[trigger] self.file.spec_nlist_at(j)),
            decreases self.file.symbols.nsyms - self.index,
        {
            let index = self.index;
            let nlist = self.file.nlist_at(index);
            self.index = self.index + 1;
            if let Some(symbol) = parse_symbol(self.file, nlist) {
                return Some((SymbolIndex(index), symbol));
            }
        }
        None
    }
}

impl<'data> MachOFile<'data> {
    /// An iterator over the symbols, in table order, debugging entries left
    /// out.
    pub fn symbols<'file>(&'file self) -> (r: MachOSymbolIterator<'data, 'file>)
        ensures
            r.spec_file() == self,
            r.position() == 0,
    {
        MachOSymbolIterator { file: self, index: 0 }
    }

    /// An iterator over the symbols that the dynamic symbol table refers to:
    /// it indexes the same table, so these are all the symbols.
    pub fn dynamic_symbols<'file>(&'file self) -> (r: MachOSymbolIterator<'data, 'file>)
        ensures
            r.spec_file() == self,
            r.position() == 0,
    {
        self.symbols()
    }

    /// The symbol at `index` in the symbol table; an error where there is no
    /// such entry, or where it is a debugging entry.
    pub fn symbol_by_index(&self, index: SymbolIndex) -> (r: Result<Symbol<'data>, Error>)
        ensures
            r is Ok <==> index.0 < self.spec_nsyms() && !is_stab(self.spec_nlist_at(index.0 as int)),
            index.0 >= self.spec_nsyms() ==> r == Err::<Symbol<'data>, Error>(Error("Invalid Mach-O symbol index")),
            index.0 < self.spec_nsyms() && is_stab(self.spec_nlist_at(index.0 as int))
                ==> r == Err::<Symbol<'data>, Error>(Error("Unsupported Mach-O symbol index")),
            r matches Ok(sym) ==> self.symbol_describes(self.spec_nlist_at(index.0 as int), sym)
                && sym.size == 0,
    {
        if index.0 >= self.symbols.nsyms {
            return Err(Error("Invalid Mach-O symbol index"));
        }
        match parse_symbol(self, self.nlist_at(index.0)) {
            Some(sym) => Ok(sym),
            None => Err(Error("Unsupported Mach-O symbol index")),
        }
    }
}

impl<'data> MachOFile<'data> {
    /// Whether `x`, but for its size, is a symbol of the file.
    pub open spec fn is_file_symbol(self, x: Symbol<'data>) -> bool {
        exists|i: int| 0 <= i < self.spec_nsyms() && !is_stab(self.spec_nlist_at(i)) && self.symbol_describes(
            #[trigger] self.spec_nlist_at(i),
            x,
        )
    }

    /// The end address of the `k`-th section (wrapping around at 2^64).
    pub open spec fn section_end(self, k: int) -> u64 {
        u64_specs::wrapping_add(self.spec_sections()[k].section.addr, self.spec_sections()[k].section.size)
    }

    /// Whether `a` is the end address of a section.
    pub open spec fn is_section_end(self, a: u64) -> bool {
        exists|k: int| 0 <= k < self.spec_sections().len() && #[trigger] self.section_end(k) == a
    }

    /// Whether `a` is the address of a symbol.
    pub open spec fn is_symbol_address(self, a: u64) -> bool {
        exists|i: int| 0 <= i < self.spec_nsyms() && !is_stab(#[trigger] self.spec_nlist_at(i))
            && self.spec_nlist_at(i).n_value == a
    }

    /// Whether `a` bounds the size of the symbols below it: the address of
    /// a symbol or the end of a section.
    pub open spec fn is_boundary(self, a: u64) -> bool {
        self.is_symbol_address(a) || self.is_section_end(a)
    }

    /// Whether there is a boundary above `a`.
    pub open spec fn has_boundary_above(self, a: u64) -> bool {
        exists|b: u64| self.is_boundary(b) && b > a
    }

    /// Whether `size` is the size that a symbol map gives a symbol at `a`:
    /// the distance to the least boundary above it, or 0 where it stands at
    /// the end of a section or below no boundary.
    pub open spec fn map_size_is(self, a: u64, size: u64) -> bool {
        if self.is_section_end(a) || !self.has_boundary_above(a) {
            size == 0
        } else {
            &&& a + size > a
            &&& self.is_boundary((a + size) as u64)
            &&& forall|b: u64| self.is_boundary(b) && b > a ==> a + size <= b
        }
    }

    /// Whether the symbol of the `i`-th table entry belongs in the symbol
    /// map.
    pub open spec fn in_map(self, i: int) -> bool {
        let n = self.spec_nlist_at(i);
        let kind = self.spec_symbol_kind_in(spec_symbol_section(n, self.spec_sections().len() as int));
        &&& !is_stab(n)
        &&& (kind == SymbolKind::Unknown || kind == SymbolKind::Text || kind == SymbolKind::Data)
        &&& spec_symbol_section(n, self.spec_sections().len() as int) != SymbolSection::Undefined
        &&& !self.is_section_end(n.n_value)
        &&& self.has_boundary_above(n.n_value)
    }

    /// Whether `idx` gives, in increasing order, the table entry that each
    /// of `syms` comes from, and covers every entry that is not a debugging
    /// entry.
    pub open spec fn table_positions(self, syms: Seq<Symbol<'data>>, idx: Seq<int>) -> bool {
        &&& idx.len() == syms.len()
        &&& forall|k: int| 0 <= k < idx.len() ==> 0 <= #[trigger] idx[k] < self.spec_nsyms()
            && !is_stab(self.spec_nlist_at(idx[k])) && self.symbol_describes(self.spec_nlist_at(idx[k]), syms[k])
        &&& forall|a: int, b: int| 0 <= a < b < idx.len() ==> idx[a] < idx[b]
        &&& forall|i: int| 0 <= i < self.spec_nsyms() && !is_stab(#[trigger] self.spec_nlist_at(i)) ==> is_taken(idx, i)
    }

    /// Whether `idx` gives the table entry of each symbol of the map `r`:
    /// each entry that belongs in the map appears exactly once, and symbols
    /// of equal address come in table order.
    pub open spec fn map_entries(self, r: Seq<Symbol<'data>>, idx: Seq<int>) -> bool {
        &&& idx.len() == r.len()
        &&& forall|k: int| 0 <= k < r.len() ==> 0 <= #[trigger] idx[k] < self.spec_nsyms() && self.in_map(idx[k])
            && self.symbol_describes(self.spec_nlist_at(idx[k]), r[k])
        &&& forall|a: int, b: int| 0 <= a < b < r.len() ==> idx[a] != idx[b]
        &&& forall|i: int| 0 <= i < self.spec_nsyms() && #[trigger] self.in_map(i) ==> is_taken(idx, i)
        &&& forall|a: int, b: int| 0 <= a < b < r.len() && r[a].address == r[b].address ==> idx[a] < idx[b]
    }

    /// All the symbols of the file, in table order, with no size.
    fn collect_symbols(&self) -> (out: (Vec<Symbol<'data>>, Ghost<Seq<int>>))
        ensures
            forall|k: int| 0 <= k < out.0@.len() ==> self.is_file_symbol(#[trigger] out.0@[k]) && out.0@[k].size == 0,
            forall|i: int| 0 <= i < self.spec_nsyms() && !is_stab(#[trigger] self.spec_nlist_at(i))
                ==> exists|k: int| 0 <= k < out.0@.len() && self.symbol_describes(self.spec_nlist_at(i), #[trigger] out.0@[k]),
            self.table_positions(out.0@, out.1@),
    {
        let mut symbols: Vec<Symbol<'data>> = Vec::new();
        let ghost mut idx: Seq<int> = seq![];
        let mut iter = self.symbols();
        loop
            invariant
                iter.spec_file() == self,
                0 <= iter.position(),
                forall|k: int| 0 <= k < symbols@.len() ==> self.is_file_symbol(#[trigger] symbols@[k]) && symbols@[k].size == 0,
                forall|i: int| 0 <= i < iter.position() && i < self.spec_nsyms() && !is_stab(#[trigger] self.spec_nlist_at(i))
                    ==> exists|k: int| 0 <= k < symbols@.len() && self.symbol_describes(self.spec_nlist_at(i), #[trigger] symbols@[k]),
                idx.len() == symbols@.len(),
                forall|k: int| 0 <= k < idx.len() ==> 0 <= #[trigger] idx[k] < iter.position() && idx[k] < self.spec_nsyms()
                    && !is_stab(self.spec_nlist_at(idx[k])) && self.symbol_describes(self.spec_nlist_at(idx[k]), symbols@[k]),
                forall|a: int, b: int| 0 <= a < b < idx.len() ==> idx[a] < idx[b],
                forall|i: int| 0 <= i < iter.position() && i < self.spec_nsyms() && !is_stab(#[trigger] self.spec_nlist_at(i))
                    ==> is_taken(idx, i),
            ensures
                self.table_positions(symbols@, idx),
                forall|k: int| 0 <= k < symbols@.len() ==> self.is_file_symbol(#[trigger] symbols@[k]) && symbols@[k].size == 0,
                forall|i: int| 0 <= i < self.spec_nsyms() && !is_stab(#[trigger] self.spec_nlist_at(i))
                    ==> exists|k: int| 0 <= k < symbols@.len() && self.symbol_describes(self.spec_nlist_at(i), #[trigger] symbols@[k]),
            decreases self.spec_nsyms() - iter.position(),
        {
            let ghost before = iter.position();
            let ghost old_symbols = symbols@;
            let ghost old_idx = idx;
            match iter.next() {
                Some((index, symbol)) => {
                    symbols.push(symbol);
                    proof {
                        idx = old_idx.push(index.0 as int);
                        assert(idx[old_idx.len() as int] == index.0);
                        assert forall|i: int| 0 <= i < iter.position() && i < self.spec_nsyms() && !is_stab(#[trigger] self.spec_nlist_at(i))
                            implies is_taken(idx, i) by {
                            if i < before {
                                assert(is_taken(old_idx, i));
                                let w = choose|w: int| 0 <= w < old_idx.len() && old_idx[w] == i;
                                assert(idx[w] == i);
                            } else {
                                assert(i == index.0);
                                assert(idx[old_idx.len() as int] == i);
                            }
                        }
                        assert forall|k: int| 0 <= k < idx.len() implies 0 <= #[trigger] idx[k] < iter.position() && idx[k] < self.spec_nsyms()
                            && !is_stab(self.spec_nlist_at(idx[k])) && self.symbol_describes(self.spec_nlist_at(idx[k]), symbols@[k]) by {
                            if k < old_idx.len() {
                                assert(idx[k] == old_idx[k]);
                                assert(symbols@[k] == old_symbols[k]);
                            }
                        }
                        assert(symbols@[old_symbols.len() as int] == symbol);
                        assert forall|k: int| 0 <= k < symbols@.len() implies self.is_file_symbol(#[trigger] symbols@[k])
                            && symbols@[k].size == 0 by {
                            if k < old_symbols.len() {
                                assert(symbols@[k] == old_symbols[k]);
                            } else {
                                assert(self.symbol_describes(self.spec_nlist_at(index.0 as int), symbols@[k]));
                            }
                        }
                        assert forall|i: int| 0 <= i < iter.position() && i < self.spec_nsyms() && !is_stab(#[trigger] self.spec_nlist_at(i))
                            implies exists|k: int| 0 <= k < symbols@.len() && self.symbol_describes(self.spec_nlist_at(i), #[trigger] symbols@[k]) by {
                            if i < before {
                                let k = choose|k: int| 0 <= k < old_symbols.len() && self.symbol_describes(self.spec_nlist_at(i), #[trigger] old_symbols[k]);
                                assert(symbols@[k] == old_symbols[k]);
                            } else {
                                assert(i == index.0);
                                assert(self.symbol_describes(self.spec_nlist_at(i), symbols@[old_symbols.len() as int]));
                            }
                        }
                    }
                },
                None => break,
            }
        }
        (symbols, Ghost(idx))
    }

    /// The end address of every section, in index order.
    fn section_ends(&self) -> (r: Vec<u64>)
        ensures
            r@.len() == self.spec_sections().len(),
            forall|k: int| 0 <= k < r@.len() ==> #[trigger] r@[k] == self.section_end(k),
    {
        let mut ends: Vec<u64> = Vec::new();
        let mut sections = self.sections();
        loop
            invariant
                sections.spec_file() == self,
                ends@.len() == sections.position(),
                sections.position() <= self.spec_sections().len(),
                forall|k: int| 0 <= k < ends@.len() ==> #[trigger] ends@[k] == self.section_end(k),
            ensures
                ends@.len() == self.spec_sections().len(),
                forall|k: int| 0 <= k < ends@.len() ==> #[trigger] ends@[k] == self.section_end(k),
            decreases self.spec_sections().len() - sections.position(),
        {
            match sections.next() {
                Some(section) => {
                    ends.push(section.address().wrapping_add(section.size()));
                },
                None => break,
            }
        }
        ends
    }

    /// Sizes every symbol of `symbols` as a symbol map does, given the end
    /// of every section and every boundary.
    fn size_symbols(&self, symbols: &mut Vec<Symbol<'data>>, ends: &Vec<u64>, bounds: &Vec<u64>)
        requires
            forall|b: u64| bounds@.contains(b) <==> self.is_boundary(b),
            forall|a: u64| ends@.contains(a) <==> self.is_section_end(a),
            forall|k: int| 0 <= k < old(symbols)@.len() ==> self.is_file_symbol(#[trigger] old(symbols)@[k]),
        ensures
            final(symbols)@.len() == old(symbols)@.len(),
            forall|k: int| 0 <= k < final(symbols)@.len() ==> {
                &&& #[trigger] final(symbols)@[k].address == old(symbols)@[k].address
                &&& self.map_size_is(final(symbols)@[k].address, final(symbols)@[k].size)
                &&& forall|n: Nlist| self.symbol_describes(n, old(symbols)@[k]) ==> self.symbol_describes(n, final(symbols)@[k])
            },
    {
        let ghost start = symbols@;
        let mut k: usize = 0;
        while k < symbols.len()
            invariant
                forall|b: u64| bounds@.contains(b) <==> self.is_boundary(b),
                forall|a: u64| ends@.contains(a) <==> self.is_section_end(a),
                k <= symbols@.len(),
                symbols@.len() == start.len(),
                forall|j: int| k <= j < symbols@.len() ==> symbols@[j] == start[j],
                forall|j: int| 0 <= j < k ==> {
                    &&& #[trigger] symbols@[j].address == start[j].address
                    &&& self.map_size_is(symbols@[j].address, symbols@[j].size)
                    &&& forall|n: Nlist| self.symbol_describes(n, start[j]) ==> self.symbol_describes(n, symbols@[j])
                },
            decreases symbols@.len() - k,
        {
            let mut symbol = symbols[k];
            let a = symbol.address;
            symbol.size = 0;
            if !contains_u64(ends, a) {
                match least_above(bounds, a) {
                    Some(next) => {
                        symbol.size = next - a;
                        proof {
                            assert(bounds@.contains(next));
                            assert forall|b: u64| self.is_boundary(b) && b > a implies a + symbol.size <= b by {
                                assert(bounds@.contains(b));
                                let w = choose|w: int| 0 <= w < bounds@.len() && bounds@[w] == b;
                            }
                            assert(self.is_boundary(next) && next > a);
                            assert(self.has_boundary_above(a));
                        }
                    },
                    None => {
                        proof {
                            assert forall|b: u64| self.is_boundary(b) implies !(b > a) by {
                                assert(bounds@.contains(b));
                            }
                        }
                    },
                }
            }
            symbols.set(k, symbol);
            k = k + 1;
        }
    }

    /// Every boundary: the addresses of `symbols`, then the section ends
    /// `ends`.
    fn boundaries(&self, symbols: &Vec<Symbol<'data>>, ends: &Vec<u64>) -> (bounds: Vec<u64>)
        requires
            forall|k: int| 0 <= k < symbols@.len() ==> self.is_file_symbol(#[trigger] symbols@[k]),
            forall|i: int| 0 <= i < self.spec_nsyms() && !is_stab(#[trigger] self.spec_nlist_at(i))
                ==> exists|k: int| 0 <= k < symbols@.len() && self.symbol_describes(self.spec_nlist_at(i), #[trigger] symbols@[k]),
            ends@.len() == self.spec_sections().len(),
            forall|k: int| 0 <= k < ends@.len() ==> #[trigger] ends@[k] == self.section_end(k),
        ensures
            forall|b: u64| bounds@.contains(b) <==> self.is_boundary(b),
            forall|a: u64| ends@.contains(a) <==> self.is_section_end(a),
    {
        let mut bounds: Vec<u64> = Vec::new();
        let mut i: usize = 0;
        while i < symbols.len()
            invariant
                i <= symbols@.len(),
                bounds@.len() == i,
                forall|k: int| 0 <= k < i ==> bounds@[k] == symbols@[k].address,
            decreases symbols@.len() - i,
        {
            bounds.push(symbols[i].address);
            i = i + 1;
        }
        let mut j: usize = 0;
        while j < ends.len()
            invariant
                j <= ends@.len(),
                bounds@.len() == symbols@.len() + j,
                forall|k: int| 0 <= k < symbols@.len() ==> bounds@[k] == symbols@[k].address,
                forall|k: int| 0 <= k < j ==> bounds@[symbols@.len() + k] == ends@[k],
            decreases ends@.len() - j,
        {
            bounds.push(ends[j]);
            j = j + 1;
        }
        proof {
            assert forall|b: u64| bounds@.contains(b) <==> self.is_boundary(b) by {
                if bounds@.contains(b) {
                    let w = choose|w: int| 0 <= w < bounds@.len() && bounds@[w] == b;
                    if w < symbols@.len() {
                        assert(self.is_file_symbol(symbols@[w]));
                        let i = choose|i: int| 0 <= i < self.spec_nsyms() && !is_stab(self.spec_nlist_at(i))
                            && self.symbol_describes(#[trigger] self.spec_nlist_at(i), symbols@[w]);
                        assert(self.is_symbol_address(b));
                    } else {
                        let k = w - symbols@.len();
                        assert(ends@[k] == self.section_end(k));
                    }
                }
                if self.is_symbol_address(b) {
                    let i = choose|i: int| 0 <= i < self.spec_nsyms() && !is_stab(#[trigger] self.spec_nlist_at(i))
                        && self.spec_nlist_at(i).n_value == b;
                    let k = choose|k: int| 0 <= k < symbols@.len() && self.symbol_describes(self.spec_nlist_at(i), #[trigger] symbols@[k]);
                    assert(bounds@[k] == b);
                }
                if self.is_section_end(b) {
                    let k = choose|k: int| 0 <= k < self.spec_sections().len() && #[trigger] self.section_end(k) == b;
                    assert(ends@[k] == self.section_end(k));
                    assert(bounds@[symbols@.len() + k] == b);
                }
            }
            assert forall|a: u64| ends@.contains(a) <==> self.is_section_end(a) by {
                if self.is_section_end(a) {
                    let k = choose|k: int| 0 <= k < self.spec_sections().len() && #[trigger] self.section_end(k) == a;
                    assert(ends@[k] == self.section_end(k));
                    assert(ends@[k] == a);
                }
            }
        }
        bounds
    }

    proof fn lemma_map_entries(
        self,
        symbols: Seq<Symbol<'data>>,
        idx: Seq<int>,
        kept: Seq<Symbol<'data>>,
        kpos: Seq<int>,
        sorted: Seq<Symbol<'data>>,
        p: Seq<int>,
    )
        requires
            self.table_positions(symbols, idx),
            forall|j: int| 0 <= j < symbols.len() ==> self.map_size_is(symbols[j].address, #[trigger] symbols[j].size),
            kpos.len() == kept.len(),
            forall|j: int| 0 <= j < kpos.len() ==> 0 <= #[trigger] kpos[j] < symbols.len() && kept[j] == symbols[kpos[j]],
            forall|a: int, b: int| 0 <= a < b < kpos.len() ==> kpos[a] < kpos[b],
            forall|j: int| 0 <= j < symbols.len() && spec_map_filter(#[trigger] symbols[j]) ==> is_taken(kpos, j),
            forall|j: int| 0 <= j < kept.len() ==> #[trigger] spec_map_filter(kept[j]),
            stable_reorder(sorted, kept, p),
        ensures
            exists|r_idx: Seq<int>| self.map_entries(sorted, r_idx),
    {
        let r_idx = Seq::new(sorted.len(), |k: int| idx[kpos[p[k]]]);
        assert forall|k: int| 0 <= k < sorted.len() implies 0 <= #[trigger] r_idx[k] < self.spec_nsyms() && self.in_map(r_idx[k])
            && self.symbol_describes(self.spec_nlist_at(r_idx[k]), sorted[k]) by {
            let j = p[k];
            let m = kpos[j];
            assert(kept[j] == symbols[m]);
            assert(spec_map_filter(kept[j]));
            assert(0 <= idx[m] < self.spec_nsyms());
            assert(self.map_size_is(symbols[m].address, symbols[m].size));
        }
        assert forall|a: int, b: int| 0 <= a < b < sorted.len() implies r_idx[a] != r_idx[b] by {
            let (ja, jb) = (p[a], p[b]);
            assert(ja != jb);
            assert(0 <= kpos[ja] < symbols.len() && 0 <= kpos[jb] < symbols.len());
            if ja < jb {
                assert(kpos[ja] < kpos[jb]);
                assert(idx[kpos[ja]] < idx[kpos[jb]]);
            } else {
                assert(kpos[jb] < kpos[ja]);
                assert(idx[kpos[jb]] < idx[kpos[ja]]);
            }
        }
        assert forall|a: int, b: int| 0 <= a < b < sorted.len() && sorted[a].address == sorted[b].address
            implies r_idx[a] < r_idx[b] by {
            assert(p[a] < p[b]);
            assert(0 <= p[a] && p[b] < kept.len());
            assert(kpos[p[a]] < kpos[p[b]]);
            assert(0 <= kpos[p[a]] && kpos[p[b]] < symbols.len());
        }
        assert forall|i: int| 0 <= i < self.spec_nsyms() && #[trigger] self.in_map(i) implies is_taken(r_idx, i) by {
            assert(is_taken(idx, i));
            let m = choose|m: int| 0 <= m < idx.len() && idx[m] == i;
            assert(self.symbol_describes(self.spec_nlist_at(i), symbols[m]));
            assert(self.map_size_is(symbols[m].address, symbols[m].size));
            assert(spec_map_filter(symbols[m]));
            assert(is_taken(kpos, m));
            let j = choose|j: int| 0 <= j < kpos.len() && kpos[j] == m;
            assert(is_taken(p, j));
            let k = choose|k: int| 0 <= k < p.len() && p[k] == j;
            assert(r_idx[k] == i);
        }
        assert(self.map_entries(sorted, r_idx));
    }

    /// The symbol map of the file: its symbols sorted by address, each with
    /// the size up to the next boundary, a boundary being the address of a
    /// symbol or the end of a section. A symbol at the end of a section gets
    /// no size. Only the symbols that belong in a symbol map are kept, each
    /// table entry once, and symbols of equal address stay in table order.
    #[verifier::rlimit(40)]
    pub fn symbol_map(&self) -> (r: SymbolMap<'data>)
        ensures
            sorted_by_address(r.symbols@),
            forall|k: int| 0 <= k < r.symbols@.len() ==> {
                &&& spec_map_filter(#[trigger] r.symbols@[k])
                &&& self.is_file_symbol(r.symbols@[k])
                &&& self.map_size_is(r.symbols@[k].address, r.symbols@[k].size)
            },
            forall|i: int| 0 <= i < self.spec_nsyms() && #[trigger] self.in_map(i) ==> exists|k: int|
                0 <= k < r.symbols@.len() && self.symbol_describes(self.spec_nlist_at(i), r.symbols@[k]),
            forall|a: int, b: int| 0 <= a < r.symbols@.len() && 0 <= b < r.symbols@.len()
                && r.symbols@[a].address < r.symbols@[b].address
                ==> r.symbols@[a].size <= r.symbols@[b].address - r.symbols@[a].address,
            exists|idx: Seq<int>| self.map_entries(r.symbols@, idx),
    {
        let (mut symbols, idx) = self.collect_symbols();
        let ends = self.section_ends();
        let bounds = self.boundaries(&symbols, &ends);
        let ghost unsized_symbols = symbols@;
        self.size_symbols(&mut symbols, &ends, &bounds);
        proof {
            assert forall|k: int| 0 <= k < symbols@.len() implies self.is_file_symbol(#[trigger] symbols@[k]) by {
                assert(self.is_file_symbol(unsized_symbols[k]));
                let i = choose|i: int| 0 <= i < self.spec_nsyms() && !is_stab(self.spec_nlist_at(i))
                    && self.symbol_describes(#[trigger] self.spec_nlist_at(i), unsized_symbols[k]);
                assert(symbols@[k].address == unsized_symbols[k].address);
                assert(self.symbol_describes(self.spec_nlist_at(i), symbols@[k]));
            }
        }
        proof {
            assert forall|k: int| 0 <= k < idx@.len() implies 0 <= #[trigger] idx@[k] < self.spec_nsyms()
                && !is_stab(self.spec_nlist_at(idx@[k])) && self.symbol_describes(self.spec_nlist_at(idx@[k]), symbols@[k]) by {
                assert(symbols@[k].address == unsized_symbols[k].address);
            }
            assert(self.table_positions(symbols@, idx@));
        }
        let mut kept: Vec<Symbol<'data>> = Vec::new();
        let ghost mut kpos: Seq<int> = seq![];
        let mut k: usize = 0;
        while k < symbols.len()
            invariant
                k <= symbols@.len(),
                kpos.len() == kept@.len(),
                forall|j: int| 0 <= j < kpos.len() ==> 0 <= #[trigger] kpos[j] < k && kept@[j] == symbols@[kpos[j]],
                forall|a: int, b: int| 0 <= a < b < kpos.len() ==> kpos[a] < kpos[b],
                forall|j: int| 0 <= j < k && spec_map_filter(#[trigger] symbols@[j]) ==> is_taken(kpos, j),
                forall|j: int| 0 <= j < symbols@.len() ==> self.is_file_symbol(#[trigger] symbols@[j]),
                forall|j: int| 0 <= j < symbols@.len() ==> self.map_size_is(symbols@[j].address, #[trigger] symbols@[j].size),
                forall|j: int| 0 <= j < kept@.len() ==> #[trigger] spec_map_filter(kept@[j])
                    && symbols@.contains(kept@[j]),
                forall|j: int| 0 <= j < k && spec_map_filter(#[trigger] symbols@[j]) ==> kept@.contains(symbols@[j]),
            decreases symbols@.len() - k,
        {
            let symbol = symbols[k];
            let ghost old_kept = kept@;
            let ghost old_kpos = kpos;
            if SymbolMap::filter(&symbol) {
                assert(symbols@[k as int] == symbol);
                assert(symbols@.contains(symbol));
                kept.push(symbol);
                assert(kept@[old_kept.len() as int] == symbol);
                proof {
                    kpos = old_kpos.push(k as int);
                    assert(kpos[old_kpos.len() as int] == k);
                }
            }
            proof {
                assert forall|j: int| 0 <= j < kpos.len() implies 0 <= #[trigger] kpos[j] < k + 1 && kept@[j] == symbols@[kpos[j]] by {
                    if j < old_kpos.len() {
                        assert(kpos[j] == old_kpos[j]);
                        assert(kept@[j] == old_kept[j]);
                    }
                }
                assert forall|a: int, b: int| 0 <= a < b < kpos.len() implies kpos[a] < kpos[b] by {
                    if b < old_kpos.len() {
                        assert(kpos[a] == old_kpos[a] && kpos[b] == old_kpos[b]);
                    } else {
                        assert(kpos[a] == old_kpos[a]);
                    }
                }
                assert forall|j: int| 0 <= j < k + 1 && spec_map_filter(#[trigger] symbols@[j]) implies is_taken(kpos, j) by {
                    if j < k {
                        assert(is_taken(old_kpos, j));
                        let w = choose|w: int| 0 <= w < old_kpos.len() && old_kpos[w] == j;
                        assert(kpos[w] == j);
                    } else {
                        assert(kpos[old_kpos.len() as int] == j);
                    }
                }
            }
            assert forall|j: int| 0 <= j < kept@.len() implies #[trigger] spec_map_filter(kept@[j])
                && symbols@.contains(kept@[j]) by {
                if j < old_kept.len() {
                    assert(kept@[j] == old_kept[j]);
                }
            }
            assert forall|j: int| 0 <= j < k + 1 && spec_map_filter(#[trigger] symbols@[j]) implies kept@.contains(symbols@[j]) by {
                if j < k {
                    let w = choose|w: int| 0 <= w < old_kept.len() && old_kept[w] == symbols@[j];
                    assert(kept@[w] == old_kept[w]);
                } else {
                    assert(kept@[old_kept.len() as int] == symbols@[j]);
                }
            }
            k = k + 1;
        }
        let ghost kept_seq = kept@;
        let sorted = sort_by_address(kept);
        proof {
            let p = choose|p: Seq<int>| stable_reorder(sorted@, kept_seq, p);
            self.lemma_map_entries(symbols@, idx@, kept_seq, kpos, sorted@, p);
            broadcast use vstd::seq_lib::group_to_multiset_ensures;

            assert forall|j: int| #![trigger sorted@[j]] 0 <= j < sorted@.len() implies spec_map_filter(sorted@[j])
                && self.is_file_symbol(sorted@[j]) && self.map_size_is(sorted@[j].address, sorted@[j].size) by {
                let x = sorted@[j];
                assert(sorted@.to_multiset().count(x) > 0);
                assert(kept_seq.contains(x));
                let kk = choose|kk: int| 0 <= kk < kept_seq.len() && kept_seq[kk] == x;
                assert(spec_map_filter(kept_seq[kk]));
                assert(symbols@.contains(kept_seq[kk]));
                let si = choose|si: int| 0 <= si < symbols@.len() && symbols@[si] == x;
                assert(self.is_file_symbol(symbols@[si]));
                assert(self.map_size_is(symbols@[si].address, symbols@[si].size));
            }
            assert forall|i: int| 0 <= i < self.spec_nsyms() && #[trigger] self.in_map(i) implies exists|k: int|
                0 <= k < sorted@.len() && self.symbol_describes(self.spec_nlist_at(i), sorted@[k]) by {
                let n = self.spec_nlist_at(i);
                let k0 = choose|k0: int| 0 <= k0 < unsized_symbols.len() && self.symbol_describes(n, #[trigger] unsized_symbols[k0]);
                let x = symbols@[k0];
                assert(self.symbol_describes(n, x));
                assert(x.address == n.n_value);
                assert(self.map_size_is(x.address, x.size));
                assert(spec_map_filter(x));
                assert(kept_seq.contains(x));
                assert(kept_seq.to_multiset().count(x) > 0);
                assert(sorted@.contains(x));
            }
            assert forall|a: int, b: int| 0 <= a < sorted@.len() && 0 <= b < sorted@.len()
                && sorted@[a].address < sorted@[b].address
                implies sorted@[a].size <= sorted@[b].address - sorted@[a].address by {
                let y = sorted@[b];
                assert(self.is_file_symbol(y));
                let i = choose|i: int| 0 <= i < self.spec_nsyms() && !is_stab(self.spec_nlist_at(i))
                    && self.symbol_describes(#[trigger] self.spec_nlist_at(i), y);
                assert(self.is_symbol_address(y.address));
                assert(self.is_boundary(y.address));
                assert(self.map_size_is(sorted@[a].address, sorted@[a].size));
            }
        }
        SymbolMap { symbols: sorted }
    }
}

/// The bytes of the segment commands of the width `is_64` among `cs` that
/// are not cut short.
pub open spec fn spec_segment_cmds(cs: Seq<(u32, Seq<u8>)>, is_64: bool) -> Seq<Seq<u8>>
    decreases cs.len(),
{
    if cs.len() == 0 {
        seq![]
    } else {
        let rest = spec_segment_cmds(cs.drop_first(), is_64);
        if cs[0].0 == segment_cmd(is_64) && cs[0].1.len() >= segment_size(is_64) {
            seq![cs[0].1] + rest
        } else {
            rest
        }
    }
}

/// A segment of a `MachOFile`.
#[derive(Debug, Clone, Copy)]
pub struct MachOSegment<'data, 'file> {
    file: &'file MachOFile<'data>,
    segment: Segment<'data>,
}

impl<'data, 'file> MachOSegment<'data, 'file> {
    /// The file that holds the segment.
    pub closed spec fn spec_file(self) -> &'file MachOFile<'data> {
        self.file
    }

    /// The segment command.
    pub closed spec fn spec_segment(self) -> Segment<'data> {
        self.segment
    }

    /// The address of the segment.
    pub fn address(&self) -> (r: u64)
        ensures
            r == self.spec_segment().vmaddr,
    {
        self.segment.vmaddr
    }

    /// The size of the segment in memory.
    pub fn size(&self) -> (r: u64)
        ensures
            r == self.spec_segment().vmsize,
    {
        self.segment.vmsize
    }

    /// The alignment of segments: the page size.
    pub fn align(&self) -> (r: u64)
        ensures
            r == 0x1000,
    {
        0x1000
    }

    /// The offset and size of the segment in the file.
    pub fn file_range(&self) -> (r: (u64, u64))
        ensures
            r == (self.spec_segment().fileoff, self.spec_segment().filesize),
    {
        self.segment.file_range()
    }

    /// The contents of the segment in the file, `None` where they run past
    /// its end.
    pub open spec fn spec_data(self) -> Option<Seq<u8>> {
        let d = self.spec_file().bytes();
        let (off, size) = (self.spec_segment().fileoff, self.spec_segment().filesize);
        if off + size <= d.len() {
            Some(d.subrange(off as int, off + size))
        } else {
            None
        }
    }

    /// Reads the segment's contents from the file.
    fn bytes(&self) -> (r: Result<&'data [u8], Error>)
        ensures
            r is Ok <==> self.spec_data() is Some,
            r is Err ==> r->Err_0 == Error("Invalid Mach-O segment size or offset"),
            r matches Ok(b) ==> Some(b@) == self.spec_data(),
    {
        let (offset, size) = self.segment.file_range();
        match read_bytes_at(self.file.data, offset, size) {
            Ok(b) => Ok(b),
            Err(()) => Err(Error("Invalid Mach-O segment size or offset")),
        }
    }

    /// The contents of the segment in the file; an error where they run
    /// past its end.
    pub fn data(&self) -> (r: Result<&'data [u8], Error>)
        ensures
            r is Ok <==> self.spec_data() is Some,
            r is Err ==> r->Err_0 == Error("Invalid Mach-O segment size or offset"),
            r matches Ok(b) ==> Some(b@) == self.spec_data(),
    {
        self.bytes()
    }

    /// The `size` bytes of the segment's contents at `address`; `None`
    /// where that range is not within the segment.
    pub fn data_range(&self, address: u64, size: u64) -> (r: Result<Option<&'data [u8]>, Error>)
        ensures
            r is Err <==> self.spec_data() is None,
            r is Err ==> r->Err_0 == Error("Invalid Mach-O segment size or offset"),
            r matches Ok(v) ==> {
                let b = self.spec_data()->Some_0;
                let start = address - self.spec_segment().vmaddr;
                &&& v is Some <==> (self.spec_segment().vmaddr <= address && start + size <= b.len())
                &&& v matches Some(part) ==> part@ == b.subrange(start, start + size)
            },
    {
        let data = self.data()?;
        Ok(data_range(data, self.address(), address, size))
    }

    /// The segment name; an error where it is not valid UTF-8.
    pub fn name(&self) -> (r: Result<Option<&'data str>, Error>)
        ensures
            r is Ok <==> valid_utf8(trim_nul(self.spec_segment().segname@)),
            r is Err ==> r->Err_0 == Error("Non UTF-8 Mach-O segment name"),
            r matches Ok(v) ==> (v matches Some(s) && s.spec_bytes() == trim_nul(self.spec_segment().segname@)),
    {
        match decode_utf8(self.segment.name()) {
            Some(s) => Ok(Some(s)),
            None => Err(Error("Non UTF-8 Mach-O segment name")),
        }
    }
}

/// An iterator over the segments of a `MachOFile`.
#[derive(Debug)]
pub struct MachOSegmentIterator<'data, 'file> {
    file: &'file MachOFile<'data>,
    commands: MachOLoadCommandIterator<'data>,
}

impl<'data, 'file> MachOSegmentIterator<'data, 'file> {
    /// The file whose segments are iterated.
    pub closed spec fn spec_file(self) -> &'file MachOFile<'data> {
        self.file
    }

    /// The bytes of the segment commands that are left to yield.
    pub closed spec fn remaining(self) -> Seq<Seq<u8>> {
        spec_segment_cmds(self.commands.remaining(), spec_header(self.file.bytes()).is_64)
    }

    /// Whether the iterator's state is the one that its file gave it.
    pub closed spec fn wf(self) -> bool {
        self.commands.endian == self.file.endian
    }

    /// Yields the next segment; iteration ends at the first load command
    /// that is cut short.
    pub fn next(&mut self) -> (r: Option<MachOSegment<'data, 'file>>)
        requires
            old(self).wf(),
        ensures
            final(self).wf(),
            final(self).spec_file() == old(self).spec_file(),
            r matches Some(s) ==> {
                &&& s.spec_file() == old(self).spec_file()
                &&& old(self).remaining().len() > 0
                &&& final(self).remaining() == old(self).remaining().drop_first()
                &&& s.spec_segment().decodes(
                    old(self).remaining()[0],
                    spec_header(old(self).spec_file().bytes()).is_64,
                    file_le(old(self).spec_file().bytes()),
                )
            },
            r is None ==> old(self).remaining().len() == 0,
    {
        proof {
            use_type_invariant(self.file);
        }
        let is_64 = self.file.header.is_64;
        loop
            invariant
                self.wf(),
                self.file == old(self).file,
                is_64 == spec_header(self.file.bytes()).is_64,
                self.file.endian.spec_is_little() == file_le(self.file.bytes()),
                old(self).remaining() == self.remaining(),
            decreases self.commands.ncmds,
        {
            let ghost before = self.commands;
            let command = match self.commands.next() {
                Ok(Some(c)) => c,
                _ => {
                    assert(self.commands.remaining() =~= seq![]);
                    return None;
                },
            };
            let ghost c = (command.cmd, command.data@);
            assert(before.remaining()[0] == c);
            assert(before.remaining().drop_first() =~= self.commands.remaining());
            if let Ok(Some((segment, _))) = command.segment(is_64) {
                return Some(MachOSegment { file: self.file, segment });
            }
        }
    }
}

impl<'data> MachOFile<'data> {
    /// An iterator over the segments, in load command order.
    pub fn segments<'file>(&'file self) -> (r: MachOSegmentIterator<'data, 'file>)
        ensures
            r.spec_file() == self,
            r.wf(),
            r.remaining() == spec_segment_cmds(file_commands(self.bytes()), spec_header(self.bytes()).is_64),
    {
        proof {
            use_type_invariant(self);
        }
        let commands = match self.header.load_commands(self.endian, self.data) {
            Ok(commands) => commands,
            Err(_) => {
                let empty = slice_subrange(self.data, 0, 0);
                MachOLoadCommandIterator::new(self.endian, empty, 0)
            },
        };
        MachOSegmentIterator { file: self, commands }
    }
}

/// The values that describe a file as a whole (architecture, byte order,
/// width, flags, entry point and UUID) depend on its header and its load
/// commands alone: two files that agree on those agree on all of them, and
/// so repeated queries on one file give the same values.
pub proof fn law_file_values_depend_on_commands(d1: Seq<u8>, d2: Seq<u8>)
    requires
        spec_header(d1) == spec_header(d2),
        file_commands(d1) == file_commands(d2),
        file_commands_fail(d1) == file_commands_fail(d2),
    ensures
        spec_architecture(spec_header(d1).cputype) == spec_architecture(spec_header(d2).cputype),
        file_le(d1) == file_le(d2),
        spec_header(d1).is_64 == spec_header(d2).is_64,
        spec_header(d1).flags == spec_header(d2).flags,
        spec_entry(file_commands(d1), file_le(d1)) == spec_entry(file_commands(d2), file_le(d2)),
        spec_uuid(file_commands(d1), file_commands_fail(d1)) == spec_uuid(
            file_commands(d2),
            file_commands_fail(d2),
        ),
{
}

/// Looking a section up by the index that it carries finds that section.
pub proof fn law_section_by_own_index(f: MachOFile, i: int)
    requires
        f.wf(),
        0 <= i < f.spec_sections().len(),
    ensures
        f.spec_section_at(f.spec_sections()[i].index.0 as int) == Some(f.spec_sections()[i]),
{
    assert(f.spec_sections()[i].describes(spec_parse(f.bytes())->Ok_0.sections[i], i));
}

/// The sections are numbered 1, 2, 3, ... in the order of the load
/// commands.
pub proof fn law_section_indices_increase(f: MachOFile, i: int)
    requires
        f.wf(),
        0 <= i < f.spec_sections().len(),
    ensures
        f.spec_sections()[i].index.0 == i + 1,
{
    assert(f.spec_sections()[i].describes(spec_parse(f.bytes())->Ok_0.sections[i], i));
}

} // verus!
