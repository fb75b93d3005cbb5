//! A reader for Mach-O object files.
//!
//! The reader decodes the Mach-O header, the load command stream, segments,
//! sections, the symbol table and relocations from a borrowed byte buffer.
//! Every field is decoded byte by byte with the endianness that the header's
//! magic selects, and every offset is checked against the buffer.
pub mod endian;
pub mod macho;
pub mod strings;
pub mod read;
pub mod commands;
pub mod classify;
pub mod relocs;
pub mod file;
pub mod symbol_map;

pub use file::{
    MachOFile, MachOSection, MachOSectionIterator, MachOSegment,
    MachOSegmentIterator, MachOSymbolIterator,
};
pub use commands::{MachOLoadCommand, MachOLoadCommandIterator};
pub use macho::{MachHeader, Nlist, Section, Segment};
pub use read::{
    Architecture, Error, FileFlags, Relocation, RelocationEncoding, RelocationKind,
    RelocationTarget, SectionFlags, SectionIndex, SectionKind, Symbol, SymbolFlags, SymbolIndex,
    SymbolKind, SymbolScope, SymbolSection,
};
pub use relocs::MachORelocationIterator;
pub use symbol_map::SymbolMap;
