//! Endian-aware decoding of unsigned integers from byte buffers.
use vstd::prelude::*;
use vstd::slice::slice_subrange;

verus! {

/// The byte order of a Mach-O file, chosen by its magic number.
#[derive(Debug, Clone, Copy, PartialEq, Eq, Structural)]
pub enum Endianness {
    Little,
    Big,
}

impl Endianness {
    /// The byte order whose "big endian" flag is `big`.
    pub fn from_big_endian(big: bool) -> (r: Endianness)
        ensures
            r.spec_is_little() == !big,
    {
        if big {
            Endianness::Big
        } else {
            Endianness::Little
        }
    }

    pub open spec fn spec_is_little(self) -> bool {
        self is Little
    }

    pub fn is_little_endian(self) -> (r: bool)
        ensures
            r == self.spec_is_little(),
    {
        match self {
            Endianness::Little => true,
            Endianness::Big => false,
        }
    }
}

/// The 16-bit value stored at `off` in `s`.
pub open spec fn spec_u16(s: Seq<u8>, off: int, le: bool) -> int {
    if le {
        s[off] as int + s[off + 1] as int * 0x100
    } else {
        s[off] as int * 0x100 + s[off + 1] as int
    }
}

/// The 32-bit value stored at `off` in `s`.
pub open spec fn spec_u32(s: Seq<u8>, off: int, le: bool) -> int {
    if le {
        spec_u16(s, off, le) + spec_u16(s, off + 2, le) * 0x10000
    } else {
        spec_u16(s, off, le) * 0x10000 + spec_u16(s, off + 2, le)
    }
}

/// The 64-bit value stored at `off` in `s`.
pub open spec fn spec_u64(s: Seq<u8>, off: int, le: bool) -> int {
    if le {
        spec_u32(s, off, le) + spec_u32(s, off + 4, le) * 0x1_0000_0000
    } else {
        spec_u32(s, off, le) * 0x1_0000_0000 + spec_u32(s, off + 4, le)
    }
}

/// Reads the 16-bit value at `off`.
pub fn read_u16(data: &[u8], off: usize, e: Endianness) -> (r: u16)
    requires
        off + 2 <= data.len(),
    ensures
        r == spec_u16(data@, off as int, e.spec_is_little()),
{
    let a = data[off] as u16;
    let b = data[off + 1] as u16;
    if e.is_little_endian() {
        a + b * 0x100
    } else {
        a * 0x100 + b
    }
}

/// Reads the 32-bit value at `off`.
pub fn read_u32(data: &[u8], off: usize, e: Endianness) -> (r: u32)
    requires
        off + 4 <= data.len(),
    ensures
        r == spec_u32(data@, off as int, e.spec_is_little()),
{
    let a = read_u16(data, off, e) as u32;
    let b = read_u16(data, off + 2, e) as u32;
    if e.is_little_endian() {
        a + b * 0x10000
    } else {
        a * 0x10000 + b
    }
}

/// Reads the 64-bit value at `off`.
pub fn read_u64(data: &[u8], off: usize, e: Endianness) -> (r: u64)
    requires
        off + 8 <= data.len(),
    ensures
        r == spec_u64(data@, off as int, e.spec_is_little()),
{
    let a = read_u32(data, off, e) as u64;
    let b = read_u32(data, off + 4, e) as u64;
    if e.is_little_endian() {
        a + b * 0x1_0000_0000
    } else {
        a * 0x1_0000_0000 + b
    }
}

/// The `len` bytes at `off` in `data`; an error where they run past its end.
pub fn read_bytes_at<'a>(data: &'a [u8], off: u64, len: u64) -> (r: Result<&'a [u8], ()>)
    ensures
        r is Ok <==> off + len <= data.len(),
        r matches Ok(b) ==> b@ == data@.subrange(off as int, off + len),
{
    let end = match off.checked_add(len) {
        Some(end) => end,
        None => return Err(()),
    };
    if end > data.len() as u64 {
        return Err(());
    }
    Ok(slice_subrange(data, off as usize, end as usize))
}

} // verus!
