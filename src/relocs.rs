//! Relocation entries: their packed fields and their architecture-specific
//! meaning.
use crate::endian::{read_u32, spec_u32, Endianness};
use crate::macho::{
    ARM64_RELOC_UNSIGNED, ARM_RELOC_VANILLA, CPU_TYPE_ARM, CPU_TYPE_ARM64, CPU_TYPE_X86,
    CPU_TYPE_X86_64, GENERIC_RELOC_VANILLA, RELOCATION_SIZE, R_SCATTERED, X86_64_RELOC_BRANCH,
    X86_64_RELOC_GOT, X86_64_RELOC_GOT_LOAD, X86_64_RELOC_SIGNED, X86_64_RELOC_UNSIGNED,
};
use crate::read::{
    Relocation, RelocationEncoding, RelocationKind, RelocationTarget, SectionIndex, SymbolIndex,
};
use vstd::prelude::*;

verus! {

/// The fields of a non-scattered relocation entry.
#[derive(Debug, Clone, Copy, PartialEq, Eq, Structural)]
pub struct RelocationInfo {
    pub r_address: u32,
    pub r_symbolnum: u32,
    pub r_pcrel: bool,
    pub r_length: u8,
    pub r_extern: bool,
    pub r_type: u8,
}

/// The fields packed in the two words of an entry. The bit order of the
/// second word depends on the file's byte order.
pub open spec fn spec_relocation_info(w0: u32, w1: u32, le: bool) -> RelocationInfo {
    if le {
        RelocationInfo {
            r_address: w0,
            r_symbolnum: w1 % 0x100_0000,
            r_pcrel: (w1 / 0x100_0000) % 2 == 1,
            r_length: ((w1 / 0x200_0000) % 4) as u8,
            r_extern: (w1 / 0x800_0000) % 2 == 1,
            r_type: (w1 / 0x1000_0000) as u8,
        }
    } else {
        RelocationInfo {
            r_address: w0,
            r_symbolnum: w1 / 0x100,
            r_pcrel: (w1 / 0x80) % 2 == 1,
            r_length: ((w1 / 0x20) % 4) as u8,
            r_extern: (w1 / 0x10) % 2 == 1,
            r_type: (w1 % 0x10) as u8,
        }
    }
}

/// Unpacks the fields of an entry from its two words.
pub fn relocation_info(w0: u32, w1: u32, e: Endianness) -> (r: RelocationInfo)
    ensures
        r == spec_relocation_info(w0, w1, e.spec_is_little()),
{
    if e.is_little_endian() {
        RelocationInfo {
            r_address: w0,
            r_symbolnum: w1 % 0x100_0000,
            r_pcrel: (w1 / 0x100_0000) % 2 == 1,
            r_length: ((w1 / 0x200_0000) % 4) as u8,
            r_extern: (w1 / 0x800_0000) % 2 == 1,
            r_type: (w1 / 0x1000_0000) as u8,
        }
    } else {
        RelocationInfo {
            r_address: w0,
            r_symbolnum: w1 / 0x100,
            r_pcrel: (w1 / 0x80) % 2 == 1,
            r_length: ((w1 / 0x20) % 4) as u8,
            r_extern: (w1 / 0x10) % 2 == 1,
            r_type: (w1 % 0x10) as u8,
        }
    }
}

/// Whether an entry is scattered: its first word has the high bit set, on
/// every architecture but x86-64, which has no scattered form.
pub open spec fn spec_is_scattered(cputype: u32, w0: u32) -> bool {
    cputype != CPU_TYPE_X86_64 && w0 & R_SCATTERED != 0
}

/// The kind and encoding of a relocation on the given CPU type.
pub open spec fn spec_kind_encoding(cputype: u32, r_type: u8, pcrel: bool) -> (RelocationKind, RelocationEncoding) {
    let other = (RelocationKind::MachO { value: r_type, relative: pcrel }, RelocationEncoding::Generic);
    let absolute = (RelocationKind::Absolute, RelocationEncoding::Generic);
    if cputype == CPU_TYPE_ARM {
        if r_type == ARM_RELOC_VANILLA && !pcrel { absolute } else { other }
    } else if cputype == CPU_TYPE_ARM64 {
        if r_type == ARM64_RELOC_UNSIGNED && !pcrel { absolute } else { other }
    } else if cputype == CPU_TYPE_X86 {
        if r_type == GENERIC_RELOC_VANILLA && !pcrel { absolute } else { other }
    } else if cputype == CPU_TYPE_X86_64 {
        if r_type == X86_64_RELOC_UNSIGNED && !pcrel {
            absolute
        } else if r_type == X86_64_RELOC_SIGNED && pcrel {
            (RelocationKind::Relative, RelocationEncoding::X86RipRelative)
        } else if r_type == X86_64_RELOC_BRANCH && pcrel {
            (RelocationKind::Relative, RelocationEncoding::X86Branch)
        } else if r_type == X86_64_RELOC_GOT && pcrel {
            (RelocationKind::GotRelative, RelocationEncoding::Generic)
        } else if r_type == X86_64_RELOC_GOT_LOAD && pcrel {
            (RelocationKind::GotRelative, RelocationEncoding::X86RipRelativeMovq)
        } else {
            other
        }
    } else {
        other
    }
}

/// The offset in the section and the relocation that unpacked fields
/// describe.
pub open spec fn spec_relocation(cputype: u32, info: RelocationInfo) -> (u64, Relocation) {
    let ke = spec_kind_encoding(cputype, info.r_type, info.r_pcrel);
    (
        info.r_address as u64,
        Relocation {
            kind: ke.0,
            encoding: ke.1,
            size: 8u8 << info.r_length,
            target: if info.r_extern {
                RelocationTarget::Symbol(SymbolIndex(info.r_symbolnum as usize))
            } else {
                RelocationTarget::Section(SectionIndex(info.r_symbolnum as usize))
            },
            addend: if info.r_pcrel { -4i64 } else { 0i64 },
            implicit_addend: true,
        },
    )
}

/// The relocation that an entry with words `w0`, `w1` describes; `None`
/// where the entry is scattered.
pub open spec fn spec_decode(cputype: u32, w0: u32, w1: u32, le: bool) -> Option<(u64, Relocation)> {
    if spec_is_scattered(cputype, w0) {
        None
    } else {
        Some(spec_relocation(cputype, spec_relocation_info(w0, w1, le)))
    }
}

/// Decodes one relocation entry; `None` where it is scattered.
pub fn decode_relocation(cputype: u32, w0: u32, w1: u32, e: Endianness) -> (r: Option<(u64, Relocation)>)
    ensures
        r == spec_decode(cputype, w0, w1, e.spec_is_little()),
{
    if cputype != CPU_TYPE_X86_64 && w0 & R_SCATTERED != 0 {
        return None;
    }
    let info = relocation_info(w0, w1, e);
    let pcrel = info.r_pcrel;
    let t = info.r_type;
    let other = RelocationKind::MachO { value: t, relative: pcrel };
    let mut encoding = RelocationEncoding::Generic;
    let kind = if cputype == CPU_TYPE_ARM {
        if t == ARM_RELOC_VANILLA && !pcrel { RelocationKind::Absolute } else { other }
    } else if cputype == CPU_TYPE_ARM64 {
        if t == ARM64_RELOC_UNSIGNED && !pcrel { RelocationKind::Absolute } else { other }
    } else if cputype == CPU_TYPE_X86 {
        if t == GENERIC_RELOC_VANILLA && !pcrel { RelocationKind::Absolute } else { other }
    } else if cputype == CPU_TYPE_X86_64 {
        if t == X86_64_RELOC_UNSIGNED && !pcrel {
            RelocationKind::Absolute
        } else if t == X86_64_RELOC_SIGNED && pcrel {
            encoding = RelocationEncoding::X86RipRelative;
            RelocationKind::Relative
        } else if t == X86_64_RELOC_BRANCH && pcrel {
            encoding = RelocationEncoding::X86Branch;
            RelocationKind::Relative
        } else if t == X86_64_RELOC_GOT && pcrel {
            RelocationKind::GotRelative
        } else if t == X86_64_RELOC_GOT_LOAD && pcrel {
            encoding = RelocationEncoding::X86RipRelativeMovq;
            RelocationKind::GotRelative
        } else {
            other
        }
    } else {
        other
    };
    let target = if info.r_extern {
        RelocationTarget::Symbol(SymbolIndex(info.r_symbolnum as usize))
    } else {
        RelocationTarget::Section(SectionIndex(info.r_symbolnum as usize))
    };
    Some((
        info.r_address as u64,
        Relocation {
            kind,
            encoding,
            size: 8u8 << info.r_length,
            target,
            addend: if pcrel { -4 } else { 0 },
            implicit_addend: true,
        },
    ))
}

/// The relocations that the entries of `d` from byte offset `off` on
/// describe, scattered entries left out.
pub open spec fn spec_relocations(d: Seq<u8>, off: int, cputype: u32, le: bool) -> Seq<(u64, Relocation)>
    decreases d.len() - off,
{
    if off < 0 || off + 8 > d.len() {
        seq![]
    } else {
        let rest = spec_relocations(d, off + 8, cputype, le);
        match spec_decode(cputype, spec_u32(d, off, le) as u32, spec_u32(d, off + 4, le) as u32, le) {
            Some(x) => seq![x] + rest,
            None => rest,
        }
    }
}

/// An iterator over the relocations of a section.
#[derive(Debug, Clone, Copy)]
pub struct MachORelocationIterator<'data> {
    pub cputype: u32,
    pub endian: Endianness,
    /// The section's relocation entries.
    pub data: &'data [u8],
    /// The byte offset of the next entry.
    pub offset: usize,
}

impl<'data> MachORelocationIterator<'data> {
    /// The relocations that this iterator has left to yield.
    pub open spec fn remaining(self) -> Seq<(u64, Relocation)> {
        spec_relocations(self.data@, self.offset as int, self.cputype, self.endian.spec_is_little())
    }

    /// Yields the next relocation, with its offset in the section, skipping
    /// scattered entries.
    pub fn next(&mut self) -> (r: Option<(u64, Relocation)>)
        ensures
            final(self).data == old(self).data,
            final(self).cputype == old(self).cputype,
            final(self).endian == old(self).endian,
            old(self).remaining() == (match r {
                Some(x) => seq![x],
                None => seq![],
            }) + final(self).remaining(),
            r is None ==> final(self).remaining().len() == 0,
    {
        while self.offset <= self.data.len() && RELOCATION_SIZE <= self.data.len() - self.offset
            invariant
                self.data == old(self).data,
                self.cputype == old(self).cputype,
                self.endian == old(self).endian,
                old(self).remaining() == self.remaining(),
            decreases self.data@.len() - self.offset,
        {
            let w0 = read_u32(self.data, self.offset, self.endian);
            let w1 = read_u32(self.data, self.offset + 4, self.endian);
            self.offset = self.offset + RELOCATION_SIZE;
            let decoded = decode_relocation(self.cputype, w0, w1, self.endian);
            if decoded.is_some() {
                assert(old(self).remaining() =~= seq![decoded.unwrap()] + self.remaining());
                return decoded;
            }
        }
        None
    }
}

} // verus!
