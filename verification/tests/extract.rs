use auditable_extract::{raw_auditable_data, raw_auditable_data_wasm_for_fuzz, Error};

fn put16(b: &mut [u8], off: usize, v: u16, be: bool) {
    let bytes = if be { v.to_be_bytes() } else { v.to_le_bytes() };
    b[off..off + 2].copy_from_slice(&bytes);
}

fn put32(b: &mut [u8], off: usize, v: u32, be: bool) {
    let bytes = if be { v.to_be_bytes() } else { v.to_le_bytes() };
    b[off..off + 4].copy_from_slice(&bytes);
}

fn put64(b: &mut [u8], off: usize, v: u64, be: bool) {
    let bytes = if be { v.to_be_bytes() } else { v.to_le_bytes() };
    b[off..off + 8].copy_from_slice(&bytes);
}

/// A minimal ELF image with a 2-entry section header table: entry 0 is the
/// section-name string table, entry 1 is `.dep-v0` holding `payload` at the
/// end of the image.
fn elf(payload: &[u8], class64: bool, be: bool) -> Vec<u8> {
    let hlen: usize = if class64 { 0x40 } else { 0x34 };
    let entsize: usize = if class64 { 64 } else { 40 };
    let strtab_off = hlen + 2 * entsize;
    let payload_off = strtab_off + 9;
    let mut b = vec![0u8; payload_off];
    b[0] = 0x7f;
    b[1] = b'E';
    b[2] = b'L';
    b[3] = b'F';
    b[4] = if class64 { 2 } else { 1 };
    b[5] = if be { 2 } else { 1 };
    if class64 {
        put64(&mut b, 0x28, hlen as u64, be);
        put16(&mut b, 0x3a, entsize as u16, be);
        put16(&mut b, 0x3c, 2, be);
        put16(&mut b, 0x3e, 0, be);
        put64(&mut b, hlen + 0x18, strtab_off as u64, be);
        put64(&mut b, hlen + 0x20, 9, be);
        put32(&mut b, hlen + entsize, 1, be);
        put64(&mut b, hlen + entsize + 0x18, payload_off as u64, be);
        put64(&mut b, hlen + entsize + 0x20, payload.len() as u64, be);
    } else {
        put32(&mut b, 0x20, hlen as u32, be);
        put16(&mut b, 0x2e, entsize as u16, be);
        put16(&mut b, 0x30, 2, be);
        put16(&mut b, 0x32, 0, be);
        put32(&mut b, hlen + 0x10, strtab_off as u32, be);
        put32(&mut b, hlen + 0x14, 9, be);
        put32(&mut b, hlen + entsize, 1, be);
        put32(&mut b, hlen + entsize + 0x10, payload_off as u32, be);
        put32(&mut b, hlen + entsize + 0x14, payload.len() as u32, be);
    }
    b[strtab_off + 1..strtab_off + 8].copy_from_slice(b".dep-v0");
    b.extend_from_slice(payload);
    b
}

/// A minimal 64-bit little-endian Mach-O image with one `__DATA` segment
/// command holding one section named `.dep-v0` whose contents is `payload`.
fn macho64(payload: &[u8]) -> Vec<u8> {
    let mut b = vec![0u8; 184];
    b[0] = 0xcf;
    b[1] = 0xfa;
    b[2] = 0xed;
    b[3] = 0xfe;
    put32(&mut b, 16, 1, false);
    put32(&mut b, 20, 152, false);
    put32(&mut b, 32, 0x19, false);
    put32(&mut b, 36, 152, false);
    b[40..46].copy_from_slice(b"__DATA");
    put32(&mut b, 96, 1, false);
    b[104..111].copy_from_slice(b".dep-v0");
    put64(&mut b, 144, payload.len() as u64, false);
    put32(&mut b, 152, 184, false);
    b.extend_from_slice(payload);
    b
}

/// A minimal PE image with one section named `.dep-v0` whose raw data is
/// `payload` at the end of the image.
fn pe(payload: &[u8]) -> Vec<u8> {
    let mut b = vec![0u8; 0x80];
    b[0] = b'M';
    b[1] = b'Z';
    put32(&mut b, 0x3c, 0x40, false);
    b[0x40] = b'P';
    b[0x41] = b'E';
    put16(&mut b, 0x46, 1, false);
    b[0x58..0x5f].copy_from_slice(b".dep-v0");
    put32(&mut b, 0x68, payload.len() as u32, false);
    put32(&mut b, 0x6c, 0x80, false);
    b.extend_from_slice(payload);
    b
}

/// A minimal WebAssembly module with one custom section named `.dep-v0`
/// whose remaining payload is `payload`; the payload must be short enough
/// for a single-byte section size.
fn wasm(payload: &[u8]) -> Vec<u8> {
    assert!(payload.len() <= 119);
    let mut b = vec![0, b'a', b's', b'm', 1, 0, 0, 0];
    b.push(0);
    b.push((payload.len() + 8) as u8);
    b.push(7);
    b.extend_from_slice(b".dep-v0");
    b.extend_from_slice(payload);
    b
}

#[test]
fn elf64_round_trip() {
    let buf = elf(b"hello-world!", true, false);
    assert_eq!(raw_auditable_data(&buf), Ok(&b"hello-world!"[..]));
}

#[test]
fn elf64_big_endian_round_trip() {
    let buf = elf(b"payload", true, true);
    assert_eq!(raw_auditable_data(&buf), Ok(&b"payload"[..]));
}

#[test]
fn elf32_round_trip() {
    let buf = elf(b"thirty-two", false, false);
    assert_eq!(raw_auditable_data(&buf), Ok(&b"thirty-two"[..]));
}

#[test]
fn elf32_big_endian_round_trip() {
    let buf = elf(b"mips-like", false, true);
    assert_eq!(raw_auditable_data(&buf), Ok(&b"mips-like"[..]));
}

#[test]
fn macho_round_trip() {
    let buf = macho64(b"apple-bytes");
    assert_eq!(raw_auditable_data(&buf), Ok(&b"apple-bytes"[..]));
}

#[test]
fn pe_round_trip() {
    let buf = pe(b"windows-bytes");
    assert_eq!(raw_auditable_data(&buf), Ok(&b"windows-bytes"[..]));
}

#[test]
fn wasm_round_trip() {
    let buf = wasm(b"wasm-bytes");
    assert_eq!(raw_auditable_data(&buf), Ok(&b"wasm-bytes"[..]));
}

#[test]
fn wasm_empty_payload_round_trip() {
    let buf = wasm(b"");
    assert_eq!(raw_auditable_data(&buf), Ok(&b""[..]));
}

#[test]
fn wasm_fuzz_entry_round_trip() {
    let buf = wasm(b"fuzzed");
    assert_eq!(raw_auditable_data_wasm_for_fuzz(&buf), Ok(&b"fuzzed"[..]));
}

#[test]
fn wasm_fuzz_entry_rejects_other_bytes() {
    assert_eq!(raw_auditable_data_wasm_for_fuzz(b"MZ but far too long to be wasm"), Err(Error::MalformedFile));
    assert_eq!(raw_auditable_data_wasm_for_fuzz(b"\0asm"), Err(Error::UnexpectedEof));
}

/// P7: an ELF64 little-endian buffer with a 2-entry section header table
/// where entry 1 is named `.dep-v0` with file offset 0x40 and size 12, the
/// 12 bytes there being `hello-world!`.
#[test]
fn elf64_payload_at_0x40_scenario() {
    let mut b = vec![0u8; 0xd9];
    b[0] = 0x7f;
    b[1] = b'E';
    b[2] = b'L';
    b[3] = b'F';
    b[4] = 2;
    b[5] = 1;
    put64(&mut b, 0x28, 0x50, false); // section header table at 0x50
    put16(&mut b, 0x3a, 64, false);
    put16(&mut b, 0x3c, 2, false);
    put16(&mut b, 0x3e, 0, false);
    b[0x40..0x4c].copy_from_slice(b"hello-world!");
    // entry 0: the section-name string table at 0xd0, 9 bytes
    put64(&mut b, 0x50 + 0x18, 0xd0, false);
    put64(&mut b, 0x50 + 0x20, 9, false);
    // entry 1: name offset 1, file offset 0x40, size 12
    put32(&mut b, 0x90, 1, false);
    put64(&mut b, 0x90 + 0x18, 0x40, false);
    put64(&mut b, 0x90 + 0x20, 12, false);
    b[0xd1..0xd8].copy_from_slice(b".dep-v0");
    assert_eq!(raw_auditable_data(&b), Ok(&b"hello-world!"[..]));
}

#[test]
fn truncated_elf64_never_panics() {
    let buf = elf(b"hello-world!", true, false);
    for k in 0..buf.len() {
        let r = raw_auditable_data(&buf[..k]);
        assert!(r.is_err());
        if k >= 6 {
            assert!(matches!(r, Err(Error::UnexpectedEof) | Err(Error::MalformedFile)));
        } else {
            assert_eq!(r, Err(Error::NotAnExecutable));
        }
    }
}

#[test]
fn truncated_elf32_never_panics() {
    let buf = elf(b"hello-world!", false, true);
    for k in 0..buf.len() {
        let r = raw_auditable_data(&buf[..k]);
        assert!(r.is_err());
        if k >= 6 {
            assert!(matches!(r, Err(Error::UnexpectedEof) | Err(Error::MalformedFile)));
        }
    }
}

#[test]
fn truncated_macho_never_panics() {
    let buf = macho64(b"apple-bytes");
    for k in 0..buf.len() {
        let r = raw_auditable_data(&buf[..k]);
        assert!(r.is_err());
        if k >= 4 {
            assert!(matches!(r, Err(Error::UnexpectedEof) | Err(Error::MalformedFile)));
        } else {
            assert_eq!(r, Err(Error::NotAnExecutable));
        }
    }
}

#[test]
fn truncated_pe_never_panics() {
    let buf = pe(b"windows-bytes");
    for k in 0..buf.len() {
        let r = raw_auditable_data(&buf[..k]);
        assert!(r.is_err());
        if k >= 2 {
            assert!(matches!(r, Err(Error::UnexpectedEof) | Err(Error::MalformedFile)));
        } else {
            assert_eq!(r, Err(Error::NotAnExecutable));
        }
    }
}

#[test]
fn truncated_wasm_never_panics() {
    let buf = wasm(b"wasm-bytes");
    for k in 0..buf.len() {
        let r = raw_auditable_data(&buf[..k]);
        assert!(r.is_err());
        if k == 8 {
            // magic and version alone are a well-formed empty module
            assert_eq!(r, Err(Error::NoAuditData));
        } else if k >= 4 {
            assert!(matches!(r, Err(Error::UnexpectedEof) | Err(Error::MalformedFile)));
        } else {
            assert_eq!(r, Err(Error::NotAnExecutable));
        }
    }
}

#[test]
fn elf64_section_table_out_of_range() {
    let mut b = elf(b"x", true, false);
    put16(&mut b, 0x3c, 0xffff, false); // declared entry count far past the buffer
    assert_eq!(raw_auditable_data(&b), Err(Error::MalformedFile));
}

#[test]
fn elf64_section_table_offset_overflows() {
    let mut b = elf(b"x", true, false);
    put64(&mut b, 0x28, u64::MAX, false); // declared table offset overflows any sum
    assert_eq!(raw_auditable_data(&b), Err(Error::MalformedFile));
}

#[test]
fn elf64_undersized_entry_size() {
    let mut b = elf(b"x", true, false);
    put16(&mut b, 0x3a, 8, false); // declared entry size below the 64-bit minimum
    assert_eq!(raw_auditable_data(&b), Err(Error::MalformedFile));
}

#[test]
fn elf64_string_table_index_out_of_range() {
    let mut b = elf(b"x", true, false);
    put16(&mut b, 0x3e, 7, false); // string-table index past the entry count
    assert_eq!(raw_auditable_data(&b), Err(Error::MalformedFile));
}

#[test]
fn elf32_section_table_out_of_range() {
    let mut b = elf(b"x", false, false);
    put16(&mut b, 0x30, 0xffff, false);
    assert_eq!(raw_auditable_data(&b), Err(Error::MalformedFile));
}

#[test]
fn pe_section_table_out_of_range() {
    let mut b = pe(b"x");
    put16(&mut b, 0x46, 0xffff, false); // declared section count far past the buffer
    assert_eq!(raw_auditable_data(&b), Err(Error::MalformedFile));
}

#[test]
fn pe_missing_signature() {
    let mut b = pe(b"x");
    b[0x41] = b'X';
    assert_eq!(raw_auditable_data(&b), Err(Error::MalformedFile));
}

#[test]
fn macho_zero_command_size() {
    let mut b = macho64(b"x");
    put32(&mut b, 36, 0, false); // first command declares size zero
    assert_eq!(raw_auditable_data(&b), Err(Error::MalformedFile));
}

#[test]
fn macho_command_overruns_table() {
    let mut b = macho64(b"x");
    put32(&mut b, 36, 0xffff, false); // command size past the command table
    assert_eq!(raw_auditable_data(&b), Err(Error::MalformedFile));
}

#[test]
fn macho_section_count_overruns_command() {
    let mut b = macho64(b"x");
    put32(&mut b, 96, 0xffff, false); // section count past the command's size
    assert_eq!(raw_auditable_data(&b), Err(Error::MalformedFile));
}

#[test]
fn wasm_section_size_overruns_buffer() {
    let mut b = wasm(b"wasm-bytes");
    b[9] = 0x7f; // declared section size past the remaining buffer
    assert_eq!(raw_auditable_data(&b), Err(Error::UnexpectedEof));
}

#[test]
fn wasm_size_encoding_too_long() {
    let mut b = vec![0, b'a', b's', b'm', 1, 0, 0, 0];
    b.extend_from_slice(&[0, 0x80, 0x80, 0x80, 0x80, 0x80, 1]);
    assert_eq!(raw_auditable_data(&b), Err(Error::MalformedFile));
}

#[test]
fn wasm_size_overflows_32_bits() {
    let mut b = vec![0, b'a', b's', b'm', 1, 0, 0, 0];
    b.extend_from_slice(&[0, 0xff, 0xff, 0xff, 0xff, 0x7f]);
    assert_eq!(raw_auditable_data(&b), Err(Error::MalformedFile));
}

#[test]
fn elf64_no_audit_section() {
    let mut b = elf(b"hello", true, false);
    let strtab = 0x40 + 2 * 64;
    b[strtab + 2] = b'x'; // the section is named ".dxp-v0" instead
    assert_eq!(raw_auditable_data(&b), Err(Error::NoAuditData));
}

#[test]
fn macho_no_audit_section() {
    let mut b = macho64(b"hello");
    b[105] = b'x';
    assert_eq!(raw_auditable_data(&b), Err(Error::NoAuditData));
}

#[test]
fn macho_no_data_segment() {
    let mut b = macho64(b"hello");
    b[40] = b'X'; // the segment is not __DATA, so its sections are never scanned
    assert_eq!(raw_auditable_data(&b), Err(Error::NoAuditData));
}

#[test]
fn pe_no_audit_section() {
    let mut b = pe(b"hello");
    b[0x59] = b'x';
    assert_eq!(raw_auditable_data(&b), Err(Error::NoAuditData));
}

#[test]
fn wasm_no_audit_section() {
    let mut b = wasm(b"hello");
    b[12] = b'x';
    assert_eq!(raw_auditable_data(&b), Err(Error::NoAuditData));
}

#[test]
fn wasm_non_custom_section_skipped() {
    let mut b = vec![0, b'a', b's', b'm', 1, 0, 0, 0];
    b.extend_from_slice(&[6, 2, 0xaa, 0xbb]); // a non-custom section first
    b.push(0);
    b.push(11);
    b.push(7);
    b.extend_from_slice(b".dep-v0");
    b.extend_from_slice(b"two");
    assert_eq!(raw_auditable_data(&b), Ok(&b"two"[..]));
}

#[test]
fn unrecognized_magic_not_an_executable() {
    assert_eq!(raw_auditable_data(b""), Err(Error::NotAnExecutable));
    assert_eq!(raw_auditable_data(b"#!/bin/sh"), Err(Error::NotAnExecutable));
    assert_eq!(raw_auditable_data(&[0x7f]), Err(Error::NotAnExecutable));
    assert_eq!(raw_auditable_data(b"\x7fELF"), Err(Error::NotAnExecutable));
}

#[test]
fn error_messages() {
    assert_eq!(Error::NoAuditData.message(), "No audit data found in the executable");
    assert_eq!(Error::NotAnExecutable.message(), "Not an executable file");
    assert_eq!(Error::UnexpectedEof.message(), "Unexpected end of file");
    assert_eq!(Error::MalformedFile.message(), "Malformed executable file");
    assert_eq!(Error::SymbolsSectionIsMissing.message(), "Symbols section missing from executable");
    assert_eq!(Error::SectionIsMissing.message(), "Section is missing from executable");
    assert_eq!(Error::UnexpectedSectionType.message(), "Unexpected executable section type");
}

#[test]
fn extraction_is_idempotent() {
    let buffers = vec![
        elf(b"same twice", true, false),
        macho64(b"same twice"),
        pe(b"same twice"),
        wasm(b"same twice"),
        b"not an executable at all".to_vec(),
    ];
    for buf in &buffers {
        let first = raw_auditable_data(buf);
        let second = raw_auditable_data(buf);
        assert_eq!(first, second);
    }
}
