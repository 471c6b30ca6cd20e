//! Locates a named section inside an ELF image, 32- or 64-bit, either
//! byte order, treating every header field as untrusted.
//!
//! The section header table's offset, entry size and entry count are read
//! from the ELF header and validated against the buffer before any entry
//! is touched; each entry's name is resolved through the section-name
//! string table, whose own range is validated first.

use vstd::prelude::*;

use crate::bytes::{
    audit_name_at, check_audit_name_at, read_u16, read_u32, read_u64, u16_at, u32_at, u64_at,
    ByteOrder,
};
use crate::{Error, SectionDescriptor};

verus! {

/// The width of an ELF image: 32- or 64-bit.
#[derive(Debug, Copy, Clone, PartialEq, Eq, Structural)]
pub enum ElfClass {
    Elf32,
    Elf64,
}

/// The length of the ELF header for the given class.
pub open spec fn header_len(c: ElfClass) -> int {
    match c {
        ElfClass::Elf32 => 0x34,
        ElfClass::Elf64 => 0x40,
    }
}

/// The smallest section-header entry size the class permits.
pub open spec fn min_entry_size(c: ElfClass) -> int {
    match c {
        ElfClass::Elf32 => 40,
        ElfClass::Elf64 => 64,
    }
}

/// The declared file offset of the section header table.
pub open spec fn table_offset(d: Seq<u8>, c: ElfClass, o: ByteOrder) -> int {
    match c {
        ElfClass::Elf32 => u32_at(d, 0x20, o),
        ElfClass::Elf64 => u64_at(d, 0x28, o),
    }
}

/// The declared size of one section header entry.
pub open spec fn entry_size(d: Seq<u8>, c: ElfClass, o: ByteOrder) -> int {
    match c {
        ElfClass::Elf32 => u16_at(d, 0x2e, o),
        ElfClass::Elf64 => u16_at(d, 0x3a, o),
    }
}

/// The declared number of section header entries.
pub open spec fn entry_count(d: Seq<u8>, c: ElfClass, o: ByteOrder) -> int {
    match c {
        ElfClass::Elf32 => u16_at(d, 0x30, o),
        ElfClass::Elf64 => u16_at(d, 0x3c, o),
    }
}

/// The declared index of the section-name string table.
pub open spec fn strtab_index(d: Seq<u8>, c: ElfClass, o: ByteOrder) -> int {
    match c {
        ElfClass::Elf32 => u16_at(d, 0x32, o),
        ElfClass::Elf64 => u16_at(d, 0x3e, o),
    }
}

/// The declared file offset of the section whose header entry starts at `e`.
pub open spec fn sec_offset(d: Seq<u8>, c: ElfClass, o: ByteOrder, e: int) -> int {
    match c {
        ElfClass::Elf32 => u32_at(d, e + 0x10, o),
        ElfClass::Elf64 => u64_at(d, e + 0x18, o),
    }
}

/// The declared size of the section whose header entry starts at `e`.
pub open spec fn sec_size(d: Seq<u8>, c: ElfClass, o: ByteOrder, e: int) -> int {
    match c {
        ElfClass::Elf32 => u32_at(d, e + 0x14, o),
        ElfClass::Elf64 => u64_at(d, e + 0x20, o),
    }
}

/// Where the `i`-th section header entry starts, in a table at `shoff`
/// with entries of `entsize` bytes.
pub open spec fn entry_base(shoff: int, entsize: int, i: int) -> int {
    shoff + i * entsize
}

/// The entry at `e` names the audit-data section: its name offset points,
/// inside the validated string table, at the NUL-terminated section name.
pub open spec fn entry_matches(
    d: Seq<u8>,
    o: ByteOrder,
    e: int,
    stroff: int,
    strsize: int,
) -> bool {
    let noff = u32_at(d, e, o);
    &&& noff + 8 <= strsize
    &&& audit_name_at(d, stroff + noff)
}

/// The first entry from `i` on that names the audit-data section, as a
/// validated descriptor; `Ok(None)` when no entry from `i` on matches.
pub open spec fn find_from(
    d: Seq<u8>,
    c: ElfClass,
    o: ByteOrder,
    shoff: int,
    entsize: int,
    shnum: int,
    stroff: int,
    strsize: int,
    i: int,
) -> Result<Option<SectionDescriptor>, Error>
    decreases shnum - i,
{
    if i >= shnum {
        Ok(None)
    } else {
        let e = entry_base(shoff, entsize, i);
        if entry_matches(d, o, e, stroff, strsize) {
            let off = sec_offset(d, c, o, e);
            let size = sec_size(d, c, o, e);
            if off + size > d.len() {
                Err(Error::UnexpectedEof)
            } else {
                Ok(Some(SectionDescriptor { file_offset: off as usize, size: size as usize }))
            }
        } else {
            find_from(d, c, o, shoff, entsize, shnum, stroff, strsize, i + 1)
        }
    }
}

/// Where the audit-data section of an ELF image lies, or why it cannot be
/// found: a header shorter than the class requires is `UnexpectedEof`; an
/// undersized entry size, an out-of-range or overflowing section header
/// table, or a string-table index past the entry count is `MalformedFile`;
/// a string table or a matching section reaching past the buffer is
/// `UnexpectedEof`; a well-formed table with no matching entry is
/// `Ok(None)`.
pub open spec fn locate_spec(d: Seq<u8>, c: ElfClass, o: ByteOrder) -> Result<
    Option<SectionDescriptor>,
    Error,
> {
    if d.len() < header_len(c) {
        Err(Error::UnexpectedEof)
    } else {
        let shoff = table_offset(d, c, o);
        let entsize = entry_size(d, c, o);
        let shnum = entry_count(d, c, o);
        let shstrndx = strtab_index(d, c, o);
        if entsize < min_entry_size(c) {
            Err(Error::MalformedFile)
        } else if shoff + shnum * entsize > d.len() {
            Err(Error::MalformedFile)
        } else if shstrndx >= shnum {
            Err(Error::MalformedFile)
        } else {
            let se = shoff + shstrndx * entsize;
            let stroff = sec_offset(d, c, o, se);
            let strsize = sec_size(d, c, o, se);
            if stroff + strsize > d.len() {
                Err(Error::UnexpectedEof)
            } else {
                find_from(d, c, o, shoff, entsize, shnum, stroff, strsize, 0)
            }
        }
    }
}

/// Reads the declared file offset of the section header table.
fn read_table_offset(data: &[u8], c: ElfClass, o: ByteOrder) -> (r: u64)
    requires
        data@.len() >= header_len(c),
    ensures
        r == table_offset(data@, c, o),
{
    match c {
        ElfClass::Elf32 => read_u32(data, 0x20, o) as u64,
        ElfClass::Elf64 => read_u64(data, 0x28, o),
    }
}

/// Reads the declared file offset of the section whose entry starts at `e`.
fn read_sec_offset(data: &[u8], c: ElfClass, o: ByteOrder, e: usize) -> (r: u64)
    requires
        e + min_entry_size(c) <= data@.len(),
    ensures
        r == sec_offset(data@, c, o, e as int),
{
    proof {
        vstd::slice::axiom_spec_len::<u8>(data);
    }
    match c {
        ElfClass::Elf32 => read_u32(data, e + 0x10, o) as u64,
        ElfClass::Elf64 => read_u64(data, e + 0x18, o),
    }
}

/// Reads the declared size of the section whose entry starts at `e`.
fn read_sec_size(data: &[u8], c: ElfClass, o: ByteOrder, e: usize) -> (r: u64)
    requires
        e + min_entry_size(c) <= data@.len(),
    ensures
        r == sec_size(data@, c, o, e as int),
{
    proof {
        vstd::slice::axiom_spec_len::<u8>(data);
    }
    match c {
        ElfClass::Elf32 => read_u32(data, e + 0x14, o) as u64,
        ElfClass::Elf64 => read_u64(data, e + 0x20, o),
    }
}

/// Locates the audit-data section of an ELF image of class `c` and byte
/// order `o`, validating every declared offset, size and count against the
/// buffer before use.
pub fn locate(data: &[u8], c: ElfClass, o: ByteOrder) -> (r: Result<
    Option<SectionDescriptor>,
    Error,
>)
    ensures
        r == locate_spec(data@, c, o),
{
    let n = data.len();
    let hlen: usize = match c {
        ElfClass::Elf32 => 0x34,
        ElfClass::Elf64 => 0x40,
    };
    if n < hlen {
        return Err(Error::UnexpectedEof);
    }
    let shoff = read_table_offset(data, c, o);
    let (entsize_off, shnum_off, strndx_off): (usize, usize, usize) = match c {
        ElfClass::Elf32 => (0x2e, 0x30, 0x32),
        ElfClass::Elf64 => (0x3a, 0x3c, 0x3e),
    };
    let entsize = read_u16(data, entsize_off, o);
    let shnum = read_u16(data, shnum_off, o);
    let shstrndx = read_u16(data, strndx_off, o);
    let min_ent: u16 = match c {
        ElfClass::Elf32 => 40,
        ElfClass::Elf64 => 64,
    };
    if entsize < min_ent {
        return Err(Error::MalformedFile);
    }
    proof {
        assert((shnum as int) * (entsize as int) <= 0xffff * 0xffff) by (nonlinear_arith)
            requires
                shnum <= 0xffff,
                entsize <= 0xffff,
                0 <= shnum,
                0 <= entsize,
        ;
    }
    let table_need: u128 = shoff as u128 + (shnum as u128) * (entsize as u128);
    if table_need > n as u128 {
        return Err(Error::MalformedFile);
    }
    if shstrndx >= shnum {
        return Err(Error::MalformedFile);
    }
    proof {
        assert(0 <= (shstrndx as int) * (entsize as int) && (shstrndx as int) * (entsize as int)
            + (entsize as int) <= (shnum as int) * (entsize as int)) by (nonlinear_arith)
            requires
                0 <= shstrndx as int,
                shstrndx as int + 1 <= shnum as int,
                0 <= entsize as int,
        ;
    }
    let se: usize = shoff as usize + (shstrndx as usize) * (entsize as usize);
    let stroff = read_sec_offset(data, c, o, se);
    let strsize = read_sec_size(data, c, o, se);
    if stroff > n as u64 || strsize > n as u64 - stroff {
        return Err(Error::UnexpectedEof);
    }
    let ghost gshoff = shoff as int;
    let ghost gentsize = entsize as int;
    let ghost gshnum = shnum as int;
    let ghost gstroff = stroff as int;
    let ghost gstrsize = strsize as int;
    assert(locate_spec(data@, c, o) == find_from(
        data@,
        c,
        o,
        gshoff,
        gentsize,
        gshnum,
        gstroff,
        gstrsize,
        0,
    ));
    let mut i: usize = 0;
    let shnum_us = shnum as usize;
    while i < shnum_us
        invariant
            data@.len() == n,
            i <= shnum_us,
            shnum_us == gshnum,
            gshoff == shoff as int,
            gentsize == entsize as int,
            gstroff == stroff as int,
            gstrsize == strsize as int,
            min_entry_size(c) <= gentsize,
            gshoff + gshnum * gentsize <= n as int,
            gstroff + gstrsize <= n as int,
            shoff <= n as u64,
            stroff <= n as u64,
            locate_spec(data@, c, o) == find_from(
                data@,
                c,
                o,
                gshoff,
                gentsize,
                gshnum,
                gstroff,
                gstrsize,
                i as int,
            ),
        decreases shnum_us - i,
    {
        proof {
            assert(0 <= (i as int) * gentsize && (i as int) * gentsize + gentsize <= gshnum
                * gentsize) by (nonlinear_arith)
                requires
                    0 <= i as int,
                    i as int + 1 <= gshnum,
                    0 <= gentsize,
            ;
        }
        let e: usize = shoff as usize + i * (entsize as usize);
        let ghost ge = gshoff + (i as int) * gentsize;
        assert(e as int == ge);
        let noff = read_u32(data, e, o);
        let matched: bool = if noff as u64 + 8 <= strsize {
            check_audit_name_at(data, stroff as usize + noff as usize)
        } else {
            false
        };
        assert(matched == entry_matches(data@, o, ge, gstroff, gstrsize));
        if matched {
            let off = read_sec_offset(data, c, o, e);
            let size = read_sec_size(data, c, o, e);
            if off > n as u64 || size > n as u64 - off {
                return Err(Error::UnexpectedEof);
            }
            return Ok(Some(SectionDescriptor { file_offset: off as usize, size: size as usize }));
        }
        proof {
            assert(find_from(data@, c, o, gshoff, gentsize, gshnum, gstroff, gstrsize, i as int)
                == find_from(
                data@,
                c,
                o,
                gshoff,
                gentsize,
                gshnum,
                gstroff,
                gstrsize,
                i as int + 1,
            ));
        }
        i = i + 1;
    }
    Ok(None)
}

} // verus!
