//! Locates a named section inside a thin Mach-O image, 32- or 64-bit,
//! either byte order, treating every header field as untrusted.
//!
//! The magic selects width and byte order; the load commands are walked
//! sequentially, each command's declared size bounds-checked against the
//! command table before advancing; a `__DATA` segment's nested section
//! entries are scanned, fully bounds-checked, for the audit-data section.

use vstd::prelude::*;

use crate::bytes::{
    audit_name_at, check_audit_name_at, check_data_segment_name_at, data_segment_name_at,
    read_u32, read_u64, u32_at, u64_at, ByteOrder,
};
use crate::{Error, SectionDescriptor};

verus! {

/// The width and byte order a thin Mach-O magic declares, or `None` when
/// the first four bytes are no such magic. The `bool` is true for 64-bit.
pub open spec fn magic_kind(d: Seq<u8>) -> Option<(bool, ByteOrder)> {
    if d.len() < 4 {
        None
    } else if d[0] == 0xfe && d[1] == 0xed && d[2] == 0xfa && d[3] == 0xce {
        Some((false, ByteOrder::BigEndian))
    } else if d[0] == 0xce && d[1] == 0xfa && d[2] == 0xed && d[3] == 0xfe {
        Some((false, ByteOrder::LittleEndian))
    } else if d[0] == 0xfe && d[1] == 0xed && d[2] == 0xfa && d[3] == 0xcf {
        Some((true, ByteOrder::BigEndian))
    } else if d[0] == 0xcf && d[1] == 0xfa && d[2] == 0xed && d[3] == 0xfe {
        Some((true, ByteOrder::LittleEndian))
    } else {
        None
    }
}

/// The Mach-O header length for the given width.
pub open spec fn header_size(is64: bool) -> int {
    if is64 {
        32
    } else {
        28
    }
}

/// The load-command type of a segment command for the given width.
pub open spec fn seg_cmd_type(is64: bool) -> int {
    if is64 {
        0x19
    } else {
        1
    }
}

/// The fixed part of a segment command, before its section entries.
pub open spec fn seg_header_size(is64: bool) -> int {
    if is64 {
        72
    } else {
        56
    }
}

/// The size of one section entry inside a segment command.
pub open spec fn sect_entry_size(is64: bool) -> int {
    if is64 {
        80
    } else {
        68
    }
}

/// The offset, inside a segment command, of its section count.
pub open spec fn nsects_offset(is64: bool) -> int {
    if is64 {
        64
    } else {
        48
    }
}

/// The declared file offset of the section whose entry starts at `s`.
pub open spec fn sect_offset(d: Seq<u8>, o: ByteOrder, is64: bool, s: int) -> int {
    if is64 {
        u32_at(d, s + 48, o)
    } else {
        u32_at(d, s + 40, o)
    }
}

/// The declared size of the section whose entry starts at `s`.
pub open spec fn sect_size(d: Seq<u8>, o: ByteOrder, is64: bool, s: int) -> int {
    if is64 {
        u64_at(d, s + 40, o)
    } else {
        u32_at(d, s + 36, o)
    }
}

/// The first section entry from `j` on, among `nsects` entries starting
/// at `base`, whose name field holds the audit-data section name, as a
/// validated descriptor; `Ok(None)` when none matches.
pub open spec fn scan_sections(
    d: Seq<u8>,
    o: ByteOrder,
    is64: bool,
    base: int,
    nsects: int,
    j: int,
) -> Result<Option<SectionDescriptor>, Error>
    decreases nsects - j,
{
    if j >= nsects {
        Ok(None)
    } else {
        let s = base + j * sect_entry_size(is64);
        if audit_name_at(d, s) {
            let off = sect_offset(d, o, is64, s);
            let size = sect_size(d, o, is64, s);
            if off + size > d.len() {
                Err(Error::UnexpectedEof)
            } else {
                Ok(Some(SectionDescriptor { file_offset: off as usize, size: size as usize }))
            }
        } else {
            scan_sections(d, o, is64, base, nsects, j + 1)
        }
    }
}

/// Walks `remaining` load commands from `pos`, inside the command table
/// bounded by `bound`: a command whose declared size is under the minimum
/// or would advance past the bound is `MalformedFile`; a `__DATA` segment
/// has its section entries scanned; commands exhausted without a match is
/// `Ok(None)`.
pub open spec fn walk(
    d: Seq<u8>,
    o: ByteOrder,
    is64: bool,
    bound: int,
    pos: int,
    remaining: int,
) -> Result<Option<SectionDescriptor>, Error>
    decreases remaining,
{
    if remaining <= 0 {
        Ok(None)
    } else if pos + 8 > bound {
        Err(Error::MalformedFile)
    } else {
        let cmd = u32_at(d, pos, o);
        let cmdsize = u32_at(d, pos + 4, o);
        if cmdsize < 8 || pos + cmdsize > bound {
            Err(Error::MalformedFile)
        } else if cmd == seg_cmd_type(is64) {
            if cmdsize < seg_header_size(is64) {
                Err(Error::MalformedFile)
            } else if data_segment_name_at(d, pos + 8) {
                let nsects = u32_at(d, pos + nsects_offset(is64), o);
                if seg_header_size(is64) + nsects * sect_entry_size(is64) > cmdsize {
                    Err(Error::MalformedFile)
                } else {
                    match scan_sections(d, o, is64, pos + seg_header_size(is64), nsects, 0) {
                        Err(e) => Err(e),
                        Ok(Some(sd)) => Ok(Some(sd)),
                        Ok(None) => walk(d, o, is64, bound, pos + cmdsize, remaining - 1),
                    }
                }
            } else {
                walk(d, o, is64, bound, pos + cmdsize, remaining - 1)
            }
        } else {
            walk(d, o, is64, bound, pos + cmdsize, remaining - 1)
        }
    }
}

/// Where the audit-data section of a thin Mach-O image lies, or why it
/// cannot be found: unrecognized magic is `MalformedFile`; a buffer too
/// short for the header, or a command table reaching past the buffer, is
/// `UnexpectedEof`; the command walk decides the rest.
pub open spec fn locate_spec(d: Seq<u8>) -> Result<Option<SectionDescriptor>, Error> {
    match magic_kind(d) {
        None => Err(Error::MalformedFile),
        Some((is64, o)) => {
            if d.len() < header_size(is64) {
                Err(Error::UnexpectedEof)
            } else {
                let ncmds = u32_at(d, 16, o);
                let sizeofcmds = u32_at(d, 20, o);
                if header_size(is64) + sizeofcmds > d.len() {
                    Err(Error::UnexpectedEof)
                } else {
                    walk(d, o, is64, header_size(is64) + sizeofcmds, header_size(is64), ncmds)
                }
            }
        },
    }
}

/// Locates the audit-data section of a thin Mach-O image, validating the
/// command table and every command's declared size against the buffer
/// before use.
pub fn locate(data: &[u8]) -> (r: Result<Option<SectionDescriptor>, Error>)
    ensures
        r == locate_spec(data@),
{
    let n = data.len();
    if n < 4 {
        return Err(Error::MalformedFile);
    }
    let b0 = *vstd::slice::slice_index_get(data, 0);
    let b1 = *vstd::slice::slice_index_get(data, 1);
    let b2 = *vstd::slice::slice_index_get(data, 2);
    let b3 = *vstd::slice::slice_index_get(data, 3);
    let is64: bool;
    let o: ByteOrder;
    if b0 == 0xfe && b1 == 0xed && b2 == 0xfa && b3 == 0xce {
        is64 = false;
        o = ByteOrder::BigEndian;
    } else if b0 == 0xce && b1 == 0xfa && b2 == 0xed && b3 == 0xfe {
        is64 = false;
        o = ByteOrder::LittleEndian;
    } else if b0 == 0xfe && b1 == 0xed && b2 == 0xfa && b3 == 0xcf {
        is64 = true;
        o = ByteOrder::BigEndian;
    } else if b0 == 0xcf && b1 == 0xfa && b2 == 0xed && b3 == 0xfe {
        is64 = true;
        o = ByteOrder::LittleEndian;
    } else {
        return Err(Error::MalformedFile);
    }
    let hsize: usize = if is64 {
        32
    } else {
        28
    };
    if n < hsize {
        return Err(Error::UnexpectedEof);
    }
    let ncmds = read_u32(data, 16, o);
    let sizeofcmds = read_u32(data, 20, o);
    if sizeofcmds as u64 > n as u64 - hsize as u64 {
        return Err(Error::UnexpectedEof);
    }
    let bound: usize = hsize + sizeofcmds as usize;
    let ghost gbound = bound as int;
    assert(locate_spec(data@) == walk(data@, o, is64, gbound, hsize as int, ncmds as int));
    let mut pos: usize = hsize;
    let mut c: u32 = 0;
    while c < ncmds
        invariant
            data@.len() == n,
            c <= ncmds,
            8 <= gbound,
            gbound == bound as int,
            bound <= n,
            pos <= bound,
            locate_spec(data@) == walk(data@, o, is64, gbound, pos as int, ncmds - c),
        decreases ncmds - c,
    {
        if pos > bound - 8 {
            return Err(Error::MalformedFile);
        }
        let cmd = read_u32(data, pos, o);
        let cmdsize = read_u32(data, pos + 4, o);
        if cmdsize < 8 {
            return Err(Error::MalformedFile);
        }
        if cmdsize as u64 > (bound - pos) as u64 {
            return Err(Error::MalformedFile);
        }
        let sct: u32 = if is64 {
            0x19
        } else {
            1
        };
        let seghdr: u32 = if is64 {
            72
        } else {
            56
        };
        let sectsize: u32 = if is64 {
            80
        } else {
            68
        };
        if cmd == sct {
            if cmdsize < seghdr {
                return Err(Error::MalformedFile);
            }
            if check_data_segment_name_at(data, pos + 8) {
                let nsects = read_u32(
                    data,
                    pos + (if is64 {
                        64
                    } else {
                        48
                    }),
                    o,
                );
                proof {
                    assert((nsects as int) * (sectsize as int) <= 0xffffffff * 80)
                        by (nonlinear_arith)
                        requires
                            0 <= nsects as int <= 0xffffffff,
                            0 <= sectsize as int <= 80,
                    ;
                }
                let need: u64 = seghdr as u64 + (nsects as u64) * (sectsize as u64);
                if need > cmdsize as u64 {
                    return Err(Error::MalformedFile);
                }
                let base: usize = pos + seghdr as usize;
                let ghost gbase = base as int;
                let ghost gnsects = nsects as int;
                let ghost gsect = sectsize as int;
                assert(walk(data@, o, is64, gbound, pos as int, ncmds - c) == match scan_sections(
                    data@,
                    o,
                    is64,
                    gbase,
                    gnsects,
                    0,
                ) {
                    Err(e) => Err(e),
                    Ok(Some(sd)) => Ok(Some(sd)),
                    Ok(None) => walk(
                        data@,
                        o,
                        is64,
                        gbound,
                        pos as int + cmdsize as int,
                        ncmds - c - 1,
                    ),
                });
                let mut j: usize = 0;
                let nsects_us = nsects as usize;
                while j < nsects_us
                    invariant
                        data@.len() == n,
                        j <= nsects_us,
                        nsects_us == gnsects,
                        gbase == base as int,
                        gsect == sectsize as int,
                        gsect == sect_entry_size(is64),
                        68 <= gsect,
                        gbase + gnsects * gsect <= n as int,
                        locate_spec(data@) == (match scan_sections(
                            data@,
                            o,
                            is64,
                            gbase,
                            gnsects,
                            j as int,
                        ) {
                            Err(e) => Err(e),
                            Ok(Some(sd)) => Ok(Some(sd)),
                            Ok(None) => walk(
                                data@,
                                o,
                                is64,
                                gbound,
                                pos as int + cmdsize as int,
                                ncmds - c - 1,
                            ),
                        }),
                    decreases nsects_us - j,
                {
                    proof {
                        assert(0 <= (j as int) * gsect && (j as int) * gsect + gsect <= gnsects
                            * gsect) by (nonlinear_arith)
                            requires
                                0 <= j as int,
                                j as int + 1 <= gnsects,
                                0 <= gsect,
                        ;
                    }
                    let s: usize = base + j * (sectsize as usize);
                    if check_audit_name_at(data, s) {
                        let off = read_u32(
                            data,
                            s + (if is64 {
                                48
                            } else {
                                40
                            }),
                            o,
                        ) as u64;
                        let size: u64 = if is64 {
                            read_u64(data, s + 40, o)
                        } else {
                            read_u32(data, s + 36, o) as u64
                        };
                        if off > n as u64 || size > n as u64 - off {
                            return Err(Error::UnexpectedEof);
                        }
                        return Ok(
                            Some(SectionDescriptor { file_offset: off as usize, size: size as usize }),
                        );
                    }
                    j = j + 1;
                }
                assert(scan_sections(data@, o, is64, gbase, gnsects, gnsects) == Ok::<
                    Option<SectionDescriptor>,
                    Error,
                >(None));
            }
        }
        pos = pos + cmdsize as usize;
        c = c + 1;
    }
    Ok(None)
}

} // verus!
