//! Types shared by the reader: errors, indices, and the uniform records that
//! describe sections, symbols and relocations.
use vstd::prelude::*;

verus! {

/// A parse or lookup failure, with a short description.
#[derive(Debug, Clone, Copy, PartialEq, Eq)]
pub struct Error(pub &'static str);

/// The 1-based index of a section; 0 means "no section".
#[derive(Debug, Clone, Copy, PartialEq, Eq, Structural)]
pub struct SectionIndex(pub usize);

/// The 0-based index of a symbol in the symbol table.
#[derive(Debug, Clone, Copy, PartialEq, Eq, Structural)]
pub struct SymbolIndex(pub usize);

/// The machine architecture that a file targets.
#[derive(Debug, Clone, Copy, PartialEq, Eq, Structural)]
pub enum Architecture {
    Unknown,
    Arm,
    Aarch64,
    I386,
    X86_64,
    Mips,
}

/// What a section holds.
#[derive(Debug, Clone, Copy, PartialEq, Eq, Structural)]
pub enum SectionKind {
    Unknown,
    Text,
    Data,
    ReadOnlyData,
    ReadOnlyString,
    UninitializedData,
    Common,
    Tls,
    UninitializedTls,
    TlsVariables,
    Debug,
}

/// What a symbol names.
#[derive(Debug, Clone, Copy, PartialEq, Eq, Structural)]
pub enum SymbolKind {
    Null,
    Unknown,
    Text,
    Data,
    Section,
    File,
    Label,
    Tls,
}

/// Where a symbol is defined.
#[derive(Debug, Clone, Copy, PartialEq, Eq, Structural)]
pub enum SymbolSection {
    Unknown,
    Undefined,
    Absolute,
    Common,
    Section(SectionIndex),
}

/// How far a symbol is visible.
#[derive(Debug, Clone, Copy, PartialEq, Eq, Structural)]
pub enum SymbolScope {
    Unknown,
    Compilation,
    Linkage,
    Dynamic,
}

/// Format-specific flags of a symbol.
#[derive(Debug, Clone, Copy, PartialEq, Eq, Structural)]
pub enum SymbolFlags {
    Unspecified,
    MachO { n_desc: u16 },
}

/// Format-specific flags of a file.
#[derive(Debug, Clone, Copy, PartialEq, Eq, Structural)]
pub enum FileFlags {
    Unspecified,
    MachO { flags: u32 },
}

/// Format-specific flags of a section.
#[derive(Debug, Clone, Copy, PartialEq, Eq, Structural)]
pub enum SectionFlags {
    Unspecified,
    MachO { flags: u32 },
}

/// A symbol, in the same form for every file format.
#[derive(Debug, Clone, Copy)]
pub struct Symbol<'data> {
    pub name: Option<&'data str>,
    pub address: u64,
    pub size: u64,
    pub kind: SymbolKind,
    pub section: SymbolSection,
    pub weak: bool,
    pub scope: SymbolScope,
    pub flags: SymbolFlags,
}

/// How a relocation computes its value.
#[derive(Debug, Clone, Copy, PartialEq, Eq, Structural)]
pub enum RelocationKind {
    Absolute,
    Relative,
    GotRelative,
    MachO { value: u8, relative: bool },
}

/// How a relocation's value is written into the instruction or data.
#[derive(Debug, Clone, Copy, PartialEq, Eq, Structural)]
pub enum RelocationEncoding {
    Generic,
    X86RipRelative,
    X86RipRelativeMovq,
    X86Branch,
}

/// What a relocation refers to.
#[derive(Debug, Clone, Copy, PartialEq, Eq, Structural)]
pub enum RelocationTarget {
    Symbol(SymbolIndex),
    Section(SectionIndex),
}

/// A decoded relocation.
#[derive(Debug, Clone, Copy, PartialEq, Eq, Structural)]
pub struct Relocation {
    pub kind: RelocationKind,
    pub encoding: RelocationEncoding,
    pub size: u8,
    pub target: RelocationTarget,
    pub addend: i64,
    pub implicit_addend: bool,
}

} // verus!

verus! {

/// The `size` bytes at `range_address` of data that is loaded at
/// `data_address`; `None` where the range does not lie within the data.
pub fn data_range(data: &[u8], data_address: u64, range_address: u64, size: u64) -> (r: Option<&[u8]>)
    ensures
        r is Some <==> (data_address <= range_address && range_address - data_address + size
            <= data@.len()),
        r matches Some(b) ==> b@ == data@.subrange(
            range_address - data_address,
            range_address - data_address + size,
        ),
{
    let offset = match range_address.checked_sub(data_address) {
        Some(offset) => offset,
        None => return None,
    };
    match crate::endian::read_bytes_at(data, offset, size) {
        Ok(b) => Some(b),
        Err(()) => None,
    }
}

} // verus!
