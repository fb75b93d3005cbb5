//! On-disk Mach-O records: the constants of the format and the decoding of
//! each fixed-layout record, for both the 32-bit and the 64-bit layouts.
use crate::endian::{read_u16, read_u32, read_u64, spec_u16, spec_u32, spec_u64, Endianness};
use crate::strings::{trim_at_nul, trim_nul};
use vstd::prelude::*;
use vstd::slice::slice_subrange;

verus! {

pub const MH_MAGIC: u32 = 0xfeed_face;
pub const MH_CIGAM: u32 = 0xcefa_edfe;
pub const MH_MAGIC_64: u32 = 0xfeed_facf;
pub const MH_CIGAM_64: u32 = 0xcffa_edfe;

pub const CPU_ARCH_ABI64: u32 = 0x0100_0000;
pub const CPU_TYPE_X86: u32 = 7;
pub const CPU_TYPE_X86_64: u32 = 0x0100_0007;
pub const CPU_TYPE_MIPS: u32 = 8;
pub const CPU_TYPE_ARM: u32 = 12;
pub const CPU_TYPE_ARM64: u32 = 0x0100_000c;

pub const LC_SEGMENT: u32 = 0x1;
pub const LC_SYMTAB: u32 = 0x2;
pub const LC_UUID: u32 = 0x1b;
pub const LC_SEGMENT_64: u32 = 0x19;
pub const LC_MAIN: u32 = 0x8000_0028;

pub const SECTION_TYPE: u32 = 0xff;
pub const S_ZEROFILL: u32 = 0x1;
pub const S_GB_ZEROFILL: u32 = 0xc;
pub const S_THREAD_LOCAL_ZEROFILL: u32 = 0x12;

pub const N_STAB: u8 = 0xe0;
pub const N_PEXT: u8 = 0x10;
pub const N_TYPE: u8 = 0x0e;
pub const N_EXT: u8 = 0x01;
pub const N_UNDF: u8 = 0x0;
pub const N_ABS: u8 = 0x2;
pub const N_SECT: u8 = 0xe;
pub const N_WEAK_REF: u16 = 0x0040;
pub const N_WEAK_DEF: u16 = 0x0080;

pub const R_SCATTERED: u32 = 0x8000_0000;
pub const GENERIC_RELOC_VANILLA: u8 = 0;
pub const ARM_RELOC_VANILLA: u8 = 0;
pub const ARM64_RELOC_UNSIGNED: u8 = 0;
pub const X86_64_RELOC_UNSIGNED: u8 = 0;
pub const X86_64_RELOC_SIGNED: u8 = 1;
pub const X86_64_RELOC_BRANCH: u8 = 2;
pub const X86_64_RELOC_GOT_LOAD: u8 = 3;
pub const X86_64_RELOC_GOT: u8 = 4;

/// Size of the load command header `(cmd, cmdsize)`.
pub const LOAD_COMMAND_SIZE: usize = 8;
pub const SYMTAB_COMMAND_SIZE: usize = 24;
pub const UUID_COMMAND_SIZE: usize = 24;
pub const ENTRY_POINT_COMMAND_SIZE: usize = 24;
pub const RELOCATION_SIZE: usize = 8;

/// Size of the Mach header.
pub open spec fn header_size(is_64: bool) -> int {
    if is_64 { 32 } else { 28 }
}

/// Size of a segment command, without its sections.
pub open spec fn segment_size(is_64: bool) -> int {
    if is_64 { 72 } else { 56 }
}

/// Size of a section record.
pub open spec fn section_size(is_64: bool) -> int {
    if is_64 { 80 } else { 68 }
}

/// Size of an `nlist` record.
pub open spec fn nlist_size(is_64: bool) -> int {
    if is_64 { 16 } else { 12 }
}

pub fn header_size_of(is_64: bool) -> (r: usize)
    ensures r == header_size(is_64),
{
    if is_64 { 32 } else { 28 }
}

pub fn segment_size_of(is_64: bool) -> (r: usize)
    ensures r == segment_size(is_64),
{
    if is_64 { 72 } else { 56 }
}

pub fn section_size_of(is_64: bool) -> (r: usize)
    ensures r == section_size(is_64),
{
    if is_64 { 80 } else { 68 }
}

pub fn nlist_size_of(is_64: bool) -> (r: usize)
    ensures r == nlist_size(is_64),
{
    if is_64 { 16 } else { 12 }
}

/// A word field: 32 bits wide in the 32-bit layout, 64 bits in the other.
pub open spec fn spec_word(s: Seq<u8>, off: int, is_64: bool, le: bool) -> int {
    if is_64 { spec_u64(s, off, le) } else { spec_u32(s, off, le) }
}

pub fn read_word(data: &[u8], off: usize, is_64: bool, e: Endianness) -> (r: u64)
    requires
        off + (if is_64 { 8int } else { 4 }) <= data.len(),
    ensures
        r == spec_word(data@, off as int, is_64, e.spec_is_little()),
{
    if is_64 {
        read_u64(data, off, e)
    } else {
        read_u32(data, off, e) as u64
    }
}

/// The magic number, which is always read as big-endian.
pub open spec fn spec_magic(s: Seq<u8>) -> int {
    spec_u32(s, 0, false)
}

pub open spec fn magic_is_64(m: int) -> bool {
    m == MH_MAGIC_64 || m == MH_CIGAM_64
}

pub open spec fn magic_is_32(m: int) -> bool {
    m == MH_MAGIC || m == MH_CIGAM
}

pub open spec fn magic_is_big(m: int) -> bool {
    m == MH_MAGIC || m == MH_MAGIC_64
}

pub open spec fn magic_is_little(m: int) -> bool {
    m == MH_CIGAM || m == MH_CIGAM_64
}

/// The Mach header, 32-bit or 64-bit.
#[derive(Debug, Clone, Copy)]
pub struct MachHeader {
    pub is_64: bool,
    pub magic: u32,
    pub cputype: u32,
    pub cpusubtype: u32,
    pub filetype: u32,
    pub ncmds: u32,
    pub sizeofcmds: u32,
    pub flags: u32,
}

/// The header decoded from the start of `s`, whose layout and byte order the
/// magic number selects.
pub open spec fn spec_header(s: Seq<u8>) -> MachHeader {
    let m = spec_magic(s);
    let le = magic_is_little(m);
    MachHeader {
        is_64: magic_is_64(m),
        magic: m as u32,
        cputype: spec_u32(s, 4, le) as u32,
        cpusubtype: spec_u32(s, 8, le) as u32,
        filetype: spec_u32(s, 12, le) as u32,
        ncmds: spec_u32(s, 16, le) as u32,
        sizeofcmds: spec_u32(s, 20, le) as u32,
        flags: spec_u32(s, 24, le) as u32,
    }
}

impl MachHeader {
    pub open spec fn spec_is_big_endian(self) -> bool {
        magic_is_big(self.magic as int)
    }

    pub open spec fn spec_is_little_endian(self) -> bool {
        magic_is_little(self.magic as int)
    }

    pub open spec fn spec_endian(self) -> Endianness {
        if self.spec_is_big_endian() { Endianness::Big } else { Endianness::Little }
    }

    /// Decodes the header at the start of `data`.
    ///
    /// Requires the magic number to be one of the four that this reader
    /// knows, and the whole header to be present.
    pub fn parse(data: &[u8]) -> (r: Result<MachHeader, ()>)
        ensures
            r is Ok <==> (data@.len() >= 4 && (magic_is_32(spec_magic(data@)) || magic_is_64(
                spec_magic(data@),
            )) && data@.len() >= header_size(magic_is_64(spec_magic(data@)))),
            r matches Ok(h) ==> h == spec_header(data@),
    {
        if data.len() < 4 {
            return Err(());
        }
        let magic = read_u32(data, 0, Endianness::Big);
        let is_64 = magic == MH_MAGIC_64 || magic == MH_CIGAM_64;
        if !(is_64 || magic == MH_MAGIC || magic == MH_CIGAM) {
            return Err(());
        }
        if data.len() < header_size_of(is_64) {
            return Err(());
        }
        let e = Endianness::from_big_endian(magic == MH_MAGIC || magic == MH_MAGIC_64);
        Ok(MachHeader {
            is_64,
            magic,
            cputype: read_u32(data, 4, e),
            cpusubtype: read_u32(data, 8, e),
            filetype: read_u32(data, 12, e),
            ncmds: read_u32(data, 16, e),
            sizeofcmds: read_u32(data, 20, e),
            flags: read_u32(data, 24, e),
        })
    }

    /// Whether the header uses the 64-bit layout.
    pub fn is_type_64(&self) -> (r: bool)
        ensures r == self.is_64,
    {
        self.is_64
    }

    /// Whether the magic number signifies big-endian.
    pub fn is_big_endian(&self) -> (r: bool)
        ensures r == self.spec_is_big_endian(),
    {
        self.magic == MH_MAGIC || self.magic == MH_MAGIC_64
    }

    /// Whether the magic number signifies little-endian.
    pub fn is_little_endian(&self) -> (r: bool)
        ensures r == self.spec_is_little_endian(),
    {
        self.magic == MH_CIGAM || self.magic == MH_CIGAM_64
    }

    /// Whether the magic number is one that this reader supports.
    pub fn is_supported(&self) -> (r: bool)
        ensures r == (self.spec_is_little_endian() || self.spec_is_big_endian()),
    {
        self.is_little_endian() || self.is_big_endian()
    }

    /// The byte order of every other field of the file.
    pub fn endian(&self) -> (r: Endianness)
        ensures r == self.spec_endian(),
    {
        Endianness::from_big_endian(self.is_big_endian())
    }
}

/// A segment command, 32-bit or 64-bit, with its word fields widened.
#[derive(Debug, Clone, Copy)]
pub struct Segment<'data> {
    /// The raw 16-byte name field.
    pub segname: &'data [u8],
    pub vmaddr: u64,
    pub vmsize: u64,
    pub fileoff: u64,
    pub filesize: u64,
    pub maxprot: u32,
    pub initprot: u32,
    pub nsects: u32,
    pub flags: u32,
}

impl<'data> Segment<'data> {
    /// Whether this record holds the segment command at the start of `s`.
    pub open spec fn decodes(self, s: Seq<u8>, is_64: bool, le: bool) -> bool {
        let w = if is_64 { 8int } else { 4 };
        &&& self.segname@ == s.subrange(8, 24)
        &&& self.vmaddr == spec_word(s, 24, is_64, le)
        &&& self.vmsize == spec_word(s, 24 + w, is_64, le)
        &&& self.fileoff == spec_word(s, 24 + 2 * w, is_64, le)
        &&& self.filesize == spec_word(s, 24 + 3 * w, is_64, le)
        &&& self.maxprot == spec_u32(s, 24 + 4 * w, le)
        &&& self.initprot == spec_u32(s, 28 + 4 * w, le)
        &&& self.nsects == spec_u32(s, 32 + 4 * w, le)
        &&& self.flags == spec_u32(s, 36 + 4 * w, le)
    }

    /// Decodes the segment command at the start of `data`.
    pub fn parse(data: &'data [u8], is_64: bool, e: Endianness) -> (r: Segment<'data>)
        requires
            data.len() >= segment_size(is_64),
        ensures
            r.decodes(data@, is_64, e.spec_is_little()),
    {
        let w: usize = if is_64 { 8 } else { 4 };
        Segment {
            segname: slice_subrange(data, 8, 24),
            vmaddr: read_word(data, 24, is_64, e),
            vmsize: read_word(data, 24 + w, is_64, e),
            fileoff: read_word(data, 24 + 2 * w, is_64, e),
            filesize: read_word(data, 24 + 3 * w, is_64, e),
            maxprot: read_u32(data, 24 + 4 * w, e),
            initprot: read_u32(data, 28 + 4 * w, e),
            nsects: read_u32(data, 32 + 4 * w, e),
            flags: read_u32(data, 36 + 4 * w, e),
        }
    }

    /// The segment name up to its first NUL byte.
    pub fn name(&self) -> (r: &'data [u8])
        ensures
            r@ == trim_nul(self.segname@),
    {
        trim_at_nul(self.segname)
    }

    /// The offset and size of the segment in the file.
    pub fn file_range(&self) -> (r: (u64, u64))
        ensures
            r == (self.fileoff, self.filesize),
    {
        (self.fileoff, self.filesize)
    }
}

/// A section record as a value: its names are the raw 16-byte fields.
pub struct SectionModel {
    pub sectname: Seq<u8>,
    pub segname: Seq<u8>,
    pub addr: int,
    pub size: int,
    pub offset: int,
    pub align: int,
    pub reloff: int,
    pub nreloc: int,
    pub flags: int,
}

/// The section record at `off` in `s`.
pub open spec fn spec_section(s: Seq<u8>, off: int, is_64: bool, le: bool) -> SectionModel {
    let w = if is_64 { 8int } else { 4 };
    SectionModel {
        sectname: s.subrange(off, off + 16),
        segname: s.subrange(off + 16, off + 32),
        addr: spec_word(s, off + 32, is_64, le),
        size: spec_word(s, off + 32 + w, is_64, le),
        offset: spec_u32(s, off + 32 + 2 * w, le),
        align: spec_u32(s, off + 36 + 2 * w, le),
        reloff: spec_u32(s, off + 40 + 2 * w, le),
        nreloc: spec_u32(s, off + 44 + 2 * w, le),
        flags: spec_u32(s, off + 48 + 2 * w, le),
    }
}

impl SectionModel {
    /// Whether the section's type says it has no data in the file.
    pub open spec fn is_zerofill(self) -> bool {
        let t = (self.flags as u32) & SECTION_TYPE;
        t == S_ZEROFILL || t == S_GB_ZEROFILL || t == S_THREAD_LOCAL_ZEROFILL
    }

    /// The offset and size of the section in the file, if it has data there.
    pub open spec fn file_range(self) -> Option<(int, int)> {
        if self.is_zerofill() {
            None
        } else {
            Some((self.offset, self.size))
        }
    }
}

/// A section record, 32-bit or 64-bit, with its word fields widened.
#[derive(Debug, Clone, Copy)]
pub struct Section<'data> {
    /// The raw 16-byte section name field.
    pub sectname: &'data [u8],
    /// The raw 16-byte segment name field.
    pub segname: &'data [u8],
    pub addr: u64,
    pub size: u64,
    pub offset: u32,
    pub align: u32,
    pub reloff: u32,
    pub nreloc: u32,
    pub flags: u32,
}

impl<'data> View for Section<'data> {
    type V = SectionModel;

    open spec fn view(&self) -> SectionModel {
        SectionModel {
            sectname: self.sectname@,
            segname: self.segname@,
            addr: self.addr as int,
            size: self.size as int,
            offset: self.offset as int,
            align: self.align as int,
            reloff: self.reloff as int,
            nreloc: self.nreloc as int,
            flags: self.flags as int,
        }
    }
}

impl<'data> Section<'data> {
    /// Decodes the section record at `off` in `data`.
    pub fn parse(data: &'data [u8], off: usize, is_64: bool, e: Endianness) -> (r: Section<'data>)
        requires
            off + section_size(is_64) <= data.len(),
        ensures
            r@ == spec_section(data@, off as int, is_64, e.spec_is_little()),
    {
        let w: usize = if is_64 { 8 } else { 4 };
        Section {
            sectname: slice_subrange(data, off, off + 16),
            segname: slice_subrange(data, off + 16, off + 32),
            addr: read_word(data, off + 32, is_64, e),
            size: read_word(data, off + 32 + w, is_64, e),
            offset: read_u32(data, off + 32 + 2 * w, e),
            align: read_u32(data, off + 36 + 2 * w, e),
            reloff: read_u32(data, off + 40 + 2 * w, e),
            nreloc: read_u32(data, off + 44 + 2 * w, e),
            flags: read_u32(data, off + 48 + 2 * w, e),
        }
    }

    /// The section name up to its first NUL byte.
    pub fn name(&self) -> (r: &'data [u8])
        ensures
            r@ == trim_nul(self.sectname@),
    {
        trim_at_nul(self.sectname)
    }

    /// The segment name up to its first NUL byte.
    pub fn segment_name(&self) -> (r: &'data [u8])
        ensures
            r@ == trim_nul(self.segname@),
    {
        trim_at_nul(self.segname)
    }

    /// The offset and size of the section in the file; `None` for the
    /// zero-fill types, whose contents are not in the file.
    pub fn file_range(&self) -> (r: Option<(u64, u64)>)
        ensures
            r is None <==> self@.file_range() is None,
            r matches Some(p) ==> self@.file_range() == Some((p.0 as int, p.1 as int)),
    {
        let t = self.flags & SECTION_TYPE;
        if t == S_ZEROFILL || t == S_GB_ZEROFILL || t == S_THREAD_LOCAL_ZEROFILL {
            None
        } else {
            Some((self.offset as u64, self.size))
        }
    }
}

/// A symbol table entry, 32-bit or 64-bit, with `n_value` widened.
#[derive(Debug, Clone, Copy, PartialEq, Eq, Structural)]
pub struct Nlist {
    pub n_strx: u32,
    pub n_type: u8,
    pub n_sect: u8,
    pub n_desc: u16,
    pub n_value: u64,
}

/// The `nlist` record at `off` in `s`.
pub open spec fn spec_nlist(s: Seq<u8>, off: int, is_64: bool, le: bool) -> Nlist {
    Nlist {
        n_strx: spec_u32(s, off, le) as u32,
        n_type: s[off + 4],
        n_sect: s[off + 5],
        n_desc: spec_u16(s, off + 6, le) as u16,
        n_value: spec_word(s, off + 8, is_64, le) as u64,
    }
}

impl Nlist {
    /// Decodes the `nlist` record at `off` in `data`.
    pub fn parse(data: &[u8], off: usize, is_64: bool, e: Endianness) -> (r: Nlist)
        requires
            off + nlist_size(is_64) <= data.len(),
        ensures
            r == spec_nlist(data@, off as int, is_64, e.spec_is_little()),
    {
        Nlist {
            n_strx: read_u32(data, off, e),
            n_type: data[off + 4],
            n_sect: data[off + 5],
            n_desc: read_u16(data, off + 6, e),
            n_value: read_word(data, off + 8, is_64, e),
        }
    }
}

/// The `LC_SYMTAB` command body: where the symbols and strings lie.
#[derive(Debug, Clone, Copy, PartialEq, Eq, Structural)]
pub struct SymtabCommand {
    pub symoff: u32,
    pub nsyms: u32,
    pub stroff: u32,
    pub strsize: u32,
}

pub open spec fn spec_symtab(s: Seq<u8>, le: bool) -> SymtabCommand {
    SymtabCommand {
        symoff: spec_u32(s, 8, le) as u32,
        nsyms: spec_u32(s, 12, le) as u32,
        stroff: spec_u32(s, 16, le) as u32,
        strsize: spec_u32(s, 20, le) as u32,
    }
}

/// The `LC_MAIN` command body.
#[derive(Debug, Clone, Copy, PartialEq, Eq, Structural)]
pub struct EntryPointCommand {
    pub entryoff: u64,
    pub stacksize: u64,
}

pub open spec fn spec_entry_point(s: Seq<u8>, le: bool) -> EntryPointCommand {
    EntryPointCommand {
        entryoff: spec_u64(s, 8, le) as u64,
        stacksize: spec_u64(s, 16, le) as u64,
    }
}

/// The `LC_UUID` command body.
#[derive(Debug, Clone, Copy)]
pub struct UuidCommand {
    pub uuid: [u8; 16],
}

} // verus!
