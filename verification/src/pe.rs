//! Locates a named section inside a PE/COFF image, treating every header
//! field as untrusted.
//!
//! The COFF header offset stored in the MZ stub is validated before the
//! signature is checked; the section table's position and extent are
//! validated against the buffer before any of its fixed-size entries is
//! read. Section names are compared against the raw 8-byte name field.

use vstd::prelude::*;

use crate::bytes::{audit_name_at, check_audit_name_at, read_u16, read_u32, u16_le, u32_le,
    ByteOrder};
use crate::{Error, SectionDescriptor};

verus! {

/// The PE signature `P E \0 \0` occurs at `p`.
pub open spec fn pe_signature_at(d: Seq<u8>, p: int) -> bool {
    &&& d[p] == 0x50
    &&& d[p + 1] == 0x45
    &&& d[p + 2] == 0
    &&& d[p + 3] == 0
}

/// Where the `i`-th section-table entry starts, in a table at `table`
/// with 40-byte entries.
pub open spec fn entry_base(table: int, i: int) -> int {
    table + i * 40
}

/// The first section-table entry from `i` on whose 8-byte name field holds
/// the audit-data section name, as a validated descriptor; `Ok(None)` when
/// none matches.
pub open spec fn find_from(d: Seq<u8>, table: int, nsect: int, i: int) -> Result<
    Option<SectionDescriptor>,
    Error,
>
    decreases nsect - i,
{
    if i >= nsect {
        Ok(None)
    } else {
        let e = entry_base(table, i);
        if audit_name_at(d, e) {
            let size = u32_le(d, e + 16);
            let off = u32_le(d, e + 20);
            if off + size > d.len() {
                Err(Error::UnexpectedEof)
            } else {
                Ok(Some(SectionDescriptor { file_offset: off as usize, size: size as usize }))
            }
        } else {
            find_from(d, table, nsect, i + 1)
        }
    }
}

/// Where the audit-data section of a PE image lies, or why it cannot be
/// found: a buffer too short for the MZ stub or the COFF header is
/// `UnexpectedEof`; a missing PE signature or a section table reaching
/// past the buffer is `MalformedFile`; a matching section whose raw data
/// reaches past the buffer is `UnexpectedEof`; a well-formed table with no
/// matching entry is `Ok(None)`.
pub open spec fn locate_spec(d: Seq<u8>) -> Result<Option<SectionDescriptor>, Error> {
    if d.len() < 0x40 {
        Err(Error::UnexpectedEof)
    } else {
        let peoff = u32_le(d, 0x3c);
        if peoff + 24 > d.len() {
            Err(Error::UnexpectedEof)
        } else if !pe_signature_at(d, peoff) {
            Err(Error::MalformedFile)
        } else {
            let nsect = u16_le(d, peoff + 6);
            let optsize = u16_le(d, peoff + 20);
            let table = peoff + 24 + optsize;
            if table + nsect * 40 > d.len() {
                Err(Error::MalformedFile)
            } else {
                find_from(d, table, nsect, 0)
            }
        }
    }
}

/// Locates the audit-data section of a PE image, validating the COFF
/// header offset, the signature, and the section table's extent against
/// the buffer before use.
pub fn locate(data: &[u8]) -> (r: Result<Option<SectionDescriptor>, Error>)
    ensures
        r == locate_spec(data@),
{
    let n = data.len();
    if n < 0x40 {
        return Err(Error::UnexpectedEof);
    }
    let peoff = read_u32(data, 0x3c, ByteOrder::LittleEndian);
    if peoff as u64 + 24 > n as u64 {
        return Err(Error::UnexpectedEof);
    }
    let p = peoff as usize;
    let sig_ok = *vstd::slice::slice_index_get(data, p) == 0x50
        && *vstd::slice::slice_index_get(data, p + 1) == 0x45
        && *vstd::slice::slice_index_get(data, p + 2) == 0
        && *vstd::slice::slice_index_get(data, p + 3) == 0;
    if !sig_ok {
        return Err(Error::MalformedFile);
    }
    let nsect = read_u16(data, p + 6, ByteOrder::LittleEndian);
    let optsize = read_u16(data, p + 20, ByteOrder::LittleEndian);
    let table: u64 = peoff as u64 + 24 + optsize as u64;
    if table + nsect as u64 * 40 > n as u64 {
        return Err(Error::MalformedFile);
    }
    let table_us = table as usize;
    let ghost gtable = table as int;
    let ghost gnsect = nsect as int;
    assert(locate_spec(data@) == find_from(data@, gtable, gnsect, 0));
    let mut i: usize = 0;
    let nsect_us = nsect as usize;
    while i < nsect_us
        invariant
            data@.len() == n,
            i <= nsect_us,
            nsect_us == gnsect,
            gtable == table_us as int,
            gtable + gnsect * 40 <= n as int,
            locate_spec(data@) == find_from(data@, gtable, gnsect, i as int),
        decreases nsect_us - i,
    {
        let e: usize = table_us + i * 40;
        if check_audit_name_at(data, e) {
            let size = read_u32(data, e + 16, ByteOrder::LittleEndian);
            let off = read_u32(data, e + 20, ByteOrder::LittleEndian);
            if off as u64 + size as u64 > n as u64 {
                return Err(Error::UnexpectedEof);
            }
            return Ok(Some(SectionDescriptor { file_offset: off as usize, size: size as usize }));
        }
        i = i + 1;
    }
    Ok(None)
}

} // verus!
