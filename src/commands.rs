//! The load command stream that follows the Mach-O header.
use crate::endian::{read_bytes_at, read_u32, read_u64, spec_u32, Endianness};
use crate::macho::{
    header_size, header_size_of, MachHeader,
    segment_size, segment_size_of, spec_entry_point, spec_symtab, EntryPointCommand, Segment,
    SymtabCommand, UuidCommand, ENTRY_POINT_COMMAND_SIZE, LC_MAIN, LC_SEGMENT, LC_SEGMENT_64,
    LC_SYMTAB, LC_UUID, LOAD_COMMAND_SIZE, SYMTAB_COMMAND_SIZE, UUID_COMMAND_SIZE,
};
use crate::read::Error;
use vstd::prelude::*;
use vstd::slice::slice_subrange;

verus! {

/// Whether a whole load command can be read from the start of `d`: its
/// header is there, and so are the `cmdsize` bytes that it claims.
pub open spec fn command_fits(d: Seq<u8>, le: bool) -> bool {
    d.len() >= LOAD_COMMAND_SIZE && spec_u32(d, 4, le) <= d.len()
}

/// The load commands that iterating over `d` for `n` commands yields, each
/// as its `cmd` value and its bytes (header included). Iteration stops at
/// the first command that does not fit.
pub open spec fn spec_commands(d: Seq<u8>, n: nat, le: bool) -> Seq<(u32, Seq<u8>)>
    decreases n,
{
    if n == 0 || !command_fits(d, le) {
        seq![]
    } else {
        let size = spec_u32(d, 4, le);
        seq![(spec_u32(d, 0, le) as u32, d.take(size))] + spec_commands(d.skip(size), (n - 1) as nat, le)
    }
}

/// Whether iterating over `d` for `n` commands ends with an error.
pub open spec fn spec_commands_fail(d: Seq<u8>, n: nat, le: bool) -> bool
    decreases n,
{
    if n == 0 {
        false
    } else if !command_fits(d, le) {
        true
    } else {
        spec_commands_fail(d.skip(spec_u32(d, 4, le)), (n - 1) as nat, le)
    }
}

/// The error with which reading a command from the start of `d` fails.
pub open spec fn command_error(d: Seq<u8>) -> Error {
    if d.len() < LOAD_COMMAND_SIZE {
        Error("Invalid Mach-O load command header")
    } else {
        Error("Invalid Mach-O load command size")
    }
}

/// The error that ends iterating over `d` for `n` commands, if any.
pub open spec fn spec_commands_end(d: Seq<u8>, n: nat, le: bool) -> Option<Error>
    decreases n,
{
    if n == 0 {
        None
    } else if !command_fits(d, le) {
        Some(command_error(d))
    } else {
        spec_commands_end(d.skip(spec_u32(d, 4, le)), (n - 1) as nat, le)
    }
}

/// An iterator over the load commands of a Mach-O file.
#[derive(Debug, Clone, Copy)]
pub struct MachOLoadCommandIterator<'data> {
    pub endian: Endianness,
    /// The bytes of the commands that are left.
    pub data: &'data [u8],
    /// The number of commands that are left.
    pub ncmds: u32,
}

impl<'data> MachOLoadCommandIterator<'data> {
    /// The commands that this iterator has left to yield.
    pub open spec fn remaining(self) -> Seq<(u32, Seq<u8>)> {
        spec_commands(self.data@, self.ncmds as nat, self.endian.spec_is_little())
    }

    pub fn new(endian: Endianness, data: &'data [u8], ncmds: u32) -> (r: Self)
        ensures
            r == (MachOLoadCommandIterator { endian, data, ncmds }),
    {
        MachOLoadCommandIterator { endian, data, ncmds }
    }

    /// Yields the next command, `None` once `ncmds` commands were yielded,
    /// or an error where the next command's header or body is cut short.
    pub fn next(&mut self) -> (r: Result<Option<MachOLoadCommand<'data>>, Error>)
        ensures
            final(self).endian == old(self).endian,
            old(self).ncmds == 0 ==> (r matches Ok(None) && *final(self) == *old(self)),
            old(self).ncmds > 0 && !command_fits(old(self).data@, old(self).endian.spec_is_little())
                ==> r == Err::<Option<MachOLoadCommand<'data>>, Error>(command_error(old(self).data@))
                && *final(self) == *old(self),
            old(self).ncmds > 0 && command_fits(old(self).data@, old(self).endian.spec_is_little())
                ==> (r matches Ok(Some(c)) && c.endian == old(self).endian
                && (c.cmd, c.data@) == old(self).remaining()[0]
                && final(self).ncmds == old(self).ncmds - 1
                && final(self).data@ == old(self).data@.skip(c.data@.len() as int)),
            r is Ok ==> old(self).remaining() == (match r {
                Ok(Some(c)) => seq![(c.cmd, c.data@)],
                _ => seq![],
            }) + final(self).remaining(),
    {
        if self.ncmds == 0 {
            return Ok(None);
        }
        if self.data.len() < LOAD_COMMAND_SIZE {
            return Err(Error("Invalid Mach-O load command header"));
        }
        let cmd = read_u32(self.data, 0, self.endian);
        let cmdsize = read_u32(self.data, 4, self.endian) as usize;
        if cmdsize > self.data.len() {
            return Err(Error("Invalid Mach-O load command size"));
        }
        let data = slice_subrange(self.data, 0, cmdsize);
        self.data = slice_subrange(self.data, cmdsize, self.data.len());
        self.ncmds = self.ncmds - 1;
        proof {
            assert(data@ =~= old(self).data@.take(cmdsize as int));
            assert(self.data@ =~= old(self).data@.skip(cmdsize as int));
        }
        Ok(Some(MachOLoadCommand { cmd, data, endian: self.endian }))
    }
}

/// The error for a segment command of the given width that is cut short.
pub open spec fn segment_error(is_64: bool) -> Error {
    if is_64 {
        Error("Invalid Mach-O LC_SEGMENT_64 command size")
    } else {
        Error("Invalid Mach-O LC_SEGMENT command size")
    }
}

/// One load command: its `cmd` value and its bytes, header included.
#[derive(Debug, Clone, Copy)]
pub struct MachOLoadCommand<'data> {
    pub cmd: u32,
    pub data: &'data [u8],
    pub endian: Endianness,
}

impl<'data> MachOLoadCommand<'data> {
    pub open spec fn le(self) -> bool {
        self.endian.spec_is_little()
    }

    /// Reads this command as a segment command of the given width: `None`
    /// where it is not one, an error where it is one but is cut short. With
    /// the segment comes the data that follows it, which holds its sections.
    pub fn segment(self, is_64: bool) -> (r: Result<Option<(Segment<'data>, &'data [u8])>, Error>)
        ensures
            self.cmd != (if is_64 { LC_SEGMENT_64 } else { LC_SEGMENT }) ==> r matches Ok(None),
            self.cmd == (if is_64 { LC_SEGMENT_64 } else { LC_SEGMENT }) ==> {
                &&& r is Err <==> self.data@.len() < segment_size(is_64)
                &&& r is Err ==> r->Err_0 == segment_error(is_64)
                &&& r matches Ok(v) ==> (v matches Some(p) && p.0.decodes(self.data@, is_64, self.le())
                    && p.1@ == self.data@.skip(segment_size(is_64)))
            },
    {
        let expected = if is_64 { LC_SEGMENT_64 } else { LC_SEGMENT };
        if self.cmd != expected {
            return Ok(None);
        }
        let size = segment_size_of(is_64);
        if self.data.len() < size {
            return Err(
                if is_64 {
                    Error("Invalid Mach-O LC_SEGMENT_64 command size")
                } else {
                    Error("Invalid Mach-O LC_SEGMENT command size")
                },
            );
        }
        let segment = Segment::parse(self.data, is_64, self.endian);
        let rest = slice_subrange(self.data, size, self.data.len());
        assert(rest@ =~= self.data@.skip(size as int));
        Ok(Some((segment, rest)))
    }

    /// Reads this command as an `LC_SEGMENT` command.
    pub fn segment_32(self) -> (r: Result<Option<(Segment<'data>, &'data [u8])>, Error>)
        ensures
            self.cmd != LC_SEGMENT ==> r matches Ok(None),
            self.cmd == LC_SEGMENT ==> {
                &&& r is Err <==> self.data@.len() < segment_size(false)
                &&& r is Err ==> r->Err_0 == segment_error(false)
                &&& r matches Ok(v) ==> (v matches Some(p) && p.0.decodes(self.data@, false, self.le())
                    && p.1@ == self.data@.skip(segment_size(false)))
            },
    {
        self.segment(false)
    }

    /// Reads this command as an `LC_SEGMENT_64` command.
    pub fn segment_64(self) -> (r: Result<Option<(Segment<'data>, &'data [u8])>, Error>)
        ensures
            self.cmd != LC_SEGMENT_64 ==> r matches Ok(None),
            self.cmd == LC_SEGMENT_64 ==> {
                &&& r is Err <==> self.data@.len() < segment_size(true)
                &&& r is Err ==> r->Err_0 == segment_error(true)
                &&& r matches Ok(v) ==> (v matches Some(p) && p.0.decodes(self.data@, true, self.le())
                    && p.1@ == self.data@.skip(segment_size(true)))
            },
    {
        self.segment(true)
    }

    /// Reads this command as an `LC_SYMTAB` command.
    pub fn symtab(self) -> (r: Result<Option<SymtabCommand>, Error>)
        ensures
            self.cmd != LC_SYMTAB ==> r == Ok::<Option<SymtabCommand>, Error>(None),
            self.cmd == LC_SYMTAB ==> {
                &&& r is Err <==> self.data@.len() < SYMTAB_COMMAND_SIZE
                &&& r is Err ==> r->Err_0 == Error("Invalid Mach-O LC_SYMTAB command size")
                &&& r is Ok ==> r == Ok::<Option<SymtabCommand>, Error>(Some(spec_symtab(self.data@, self.le())))
            },
    {
        if self.cmd != LC_SYMTAB {
            return Ok(None);
        }
        if self.data.len() < SYMTAB_COMMAND_SIZE {
            return Err(Error("Invalid Mach-O LC_SYMTAB command size"));
        }
        Ok(Some(SymtabCommand {
            symoff: read_u32(self.data, 8, self.endian),
            nsyms: read_u32(self.data, 12, self.endian),
            stroff: read_u32(self.data, 16, self.endian),
            strsize: read_u32(self.data, 20, self.endian),
        }))
    }

    /// Reads this command as an `LC_UUID` command.
    pub fn uuid(self) -> (r: Result<Option<UuidCommand>, Error>)
        ensures
            self.cmd != LC_UUID ==> r matches Ok(None),
            self.cmd == LC_UUID ==> {
                &&& r is Err <==> self.data@.len() < UUID_COMMAND_SIZE
                &&& r is Err ==> r->Err_0 == Error("Invalid Mach-O LC_UUID command size")
                &&& r matches Ok(v) ==> (v matches Some(u) && u.uuid@ == self.data@.subrange(8, 24))
            },
    {
        if self.cmd != LC_UUID {
            return Ok(None);
        }
        if self.data.len() < UUID_COMMAND_SIZE {
            return Err(Error("Invalid Mach-O LC_UUID command size"));
        }
        let mut uuid: [u8; 16] = [0u8; 16];
        let mut i: usize = 0;
        while i < 16
            invariant
                i <= 16,
                self.data@.len() >= UUID_COMMAND_SIZE,
                forall|k: int| 0 <= k < i ==> uuid@[k] == self.data@[8 + k],
            decreases 16 - i,
        {
            uuid[i] = self.data[8 + i];
            i = i + 1;
        }
        assert(uuid@ =~= self.data@.subrange(8, 24));
        Ok(Some(UuidCommand { uuid }))
    }

    /// Reads this command as an `LC_MAIN` command.
    pub fn entry_point(self) -> (r: Result<Option<EntryPointCommand>, Error>)
        ensures
            self.cmd != LC_MAIN ==> r == Ok::<Option<EntryPointCommand>, Error>(None),
            self.cmd == LC_MAIN ==> {
                &&& r is Err <==> self.data@.len() < ENTRY_POINT_COMMAND_SIZE
                &&& r is Err ==> r->Err_0 == Error("Invalid Mach-O LC_MAIN command size")
                &&& r is Ok ==> r == Ok::<Option<EntryPointCommand>, Error>(Some(spec_entry_point(self.data@, self.le())))
            },
    {
        if self.cmd != LC_MAIN {
            return Ok(None);
        }
        if self.data.len() < ENTRY_POINT_COMMAND_SIZE {
            return Err(Error("Invalid Mach-O LC_MAIN command size"));
        }
        Ok(Some(EntryPointCommand {
            entryoff: read_u64(self.data, 8, self.endian),
            stacksize: read_u64(self.data, 16, self.endian),
        }))
    }
}

/// The bytes of the load commands of a file with header `h`: the
/// `sizeofcmds` bytes that follow the header, where the file holds them.
pub open spec fn command_area(h: MachHeader, d: Seq<u8>) -> Option<Seq<u8>> {
    let start = header_size(h.is_64);
    if start + h.sizeofcmds <= d.len() {
        Some(d.subrange(start, start + h.sizeofcmds))
    } else {
        None
    }
}

impl MachHeader {
    /// An iterator over the load commands that follow this header in `data`;
    /// an error where the command area runs past the end of `data`.
    pub fn load_commands<'data>(&self, endian: Endianness, data: &'data [u8]) -> (r: Result<
        MachOLoadCommandIterator<'data>,
        Error,
    >)
        ensures
            r is Ok <==> command_area(*self, data@) is Some,
            r is Err ==> r->Err_0 == Error("Invalid Mach-O load command table size"),
            r matches Ok(it) ==> it.endian == endian && it.ncmds == self.ncmds && Some(it.data@)
                == command_area(*self, data@),
    {
        match read_bytes_at(data, header_size_of(self.is_64) as u64, self.sizeofcmds as u64) {
            Ok(area) => Ok(MachOLoadCommandIterator::new(endian, area, self.ncmds)),
            Err(()) => Err(Error("Invalid Mach-O load command table size")),
        }
    }
}

} // verus!
