//! The properties the library promises across its functions, each proved
//! from the contracts the functions themselves state.

use vstd::prelude::*;

use crate::bytes::{audit_name, match_at, ByteOrder};
use crate::detect::{spec_detect, ContainerFormat};
use crate::elf;
use crate::inject::{spec_assess, Eligibility, UnitFacts};
use crate::pe;
use crate::wasm;
use crate::{spec_extract, Error, SectionDescriptor};

verus! {

/// The read side is a pure function of the buffer: invoking it twice on
/// the same bytes yields identical results both times.
pub proof fn lemma_extract_deterministic(d1: Seq<u8>, d2: Seq<u8>)
    requires
        d1 == d2,
    ensures
        spec_extract(d1) == spec_extract(d2),
{
}

/// A buffer with none of the recognized magics returns `NotAnExecutable`.
pub proof fn lemma_unrecognized_magic(d: Seq<u8>)
    requires
        spec_detect(d) == ContainerFormat::Unknown,
    ensures
        spec_extract(d) == Err::<Seq<u8>, Error>(Error::NotAnExecutable),
{
}

/// The `ContainerFormat` an ELF class and byte order classify as.
pub open spec fn elf_format(c: elf::ElfClass, o: ByteOrder) -> ContainerFormat {
    match c {
        elf::ElfClass::Elf32 => ContainerFormat::Elf32 { byte_order: o },
        elf::ElfClass::Elf64 => ContainerFormat::Elf64 { byte_order: o },
    }
}

/// A buffer whose magic is recognized but which ends before the format's
/// fixed header returns `UnexpectedEof`: truncation never becomes a crash
/// or a wrong answer.
pub proof fn lemma_truncated_header(d: Seq<u8>)
    ensures
        (spec_detect(d) matches ContainerFormat::Elf32 { byte_order }) && d.len() < 0x34
            ==> spec_extract(d) == Err::<Seq<u8>, Error>(Error::UnexpectedEof),
        (spec_detect(d) matches ContainerFormat::Elf64 { byte_order }) && d.len() < 0x40
            ==> spec_extract(d) == Err::<Seq<u8>, Error>(Error::UnexpectedEof),
        spec_detect(d) == ContainerFormat::MachO && d.len() < 28 ==> spec_extract(d) == Err::<
            Seq<u8>,
            Error,
        >(Error::UnexpectedEof),
        spec_detect(d) == ContainerFormat::PE && d.len() < 0x40 ==> spec_extract(d) == Err::<
            Seq<u8>,
            Error,
        >(Error::UnexpectedEof),
        spec_detect(d) == ContainerFormat::Wasm && d.len() < 8 ==> spec_extract(d) == Err::<
            Seq<u8>,
            Error,
        >(Error::UnexpectedEof),
{
}

/// A buffer with a valid ELF magic whose declared section header table
/// lies beyond the buffer, or whose count and entry size multiply out
/// past it, returns `MalformedFile`, not a crash.
pub proof fn lemma_elf_table_out_of_range(d: Seq<u8>, c: elf::ElfClass, o: ByteOrder)
    requires
        spec_detect(d) == elf_format(c, o),
        d.len() >= elf::header_len(c),
        elf::entry_size(d, c, o) >= elf::min_entry_size(c),
        elf::table_offset(d, c, o) + elf::entry_count(d, c, o) * elf::entry_size(d, c, o)
            > d.len(),
    ensures
        spec_extract(d) == Err::<Seq<u8>, Error>(Error::MalformedFile),
{
}

/// A buffer with a valid PE signature whose declared section table lies
/// beyond the buffer, or whose count multiplies out past it, returns
/// `MalformedFile`, not a crash.
pub proof fn lemma_pe_table_out_of_range(d: Seq<u8>)
    requires
        spec_detect(d) == ContainerFormat::PE,
        d.len() >= 0x40,
        crate::bytes::u32_le(d, 0x3c) + 24 <= d.len(),
        pe::pe_signature_at(d, crate::bytes::u32_le(d, 0x3c)),
        crate::bytes::u32_le(d, 0x3c) + 24 + crate::bytes::u16_le(
            d,
            crate::bytes::u32_le(d, 0x3c) + 20,
        ) + crate::bytes::u16_le(d, crate::bytes::u32_le(d, 0x3c) + 6) * 40 > d.len(),
    ensures
        spec_extract(d) == Err::<Seq<u8>, Error>(Error::MalformedFile),
{
}

/// A Mach-O buffer whose command table is declared too small for even the
/// first of its declared load commands returns `MalformedFile`, not a
/// crash.
pub proof fn lemma_macho_first_command_cannot_fit(d: Seq<u8>, is64: bool, o: ByteOrder)
    requires
        spec_detect(d) == ContainerFormat::MachO,
        crate::macho::magic_kind(d) == Some((is64, o)),
        d.len() >= crate::macho::header_size(is64),
        crate::bytes::u32_at(d, 16, o) >= 1,
        crate::macho::header_size(is64) + crate::bytes::u32_at(d, 20, o) <= d.len(),
        crate::bytes::u32_at(d, 20, o) < 8,
    ensures
        spec_extract(d) == Err::<Seq<u8>, Error>(Error::MalformedFile),
{
}

/// A WebAssembly module whose first section declares a payload length
/// past the remaining buffer returns `UnexpectedEof`, not a crash.
pub proof fn lemma_wasm_section_overruns(d: Seq<u8>, size: int, w: int)
    requires
        spec_detect(d) == ContainerFormat::Wasm,
        d.len() >= 8,
        wasm::leb_at(d, 9, d.len() as int, 5) == Ok::<(int, int), Error>((size, w)),
        size <= 0xffffffff,
        9 + w + size > d.len(),
    ensures
        spec_extract(d) == Err::<Seq<u8>, Error>(Error::UnexpectedEof),
{
}

/// No ELF section header entry from `i` on names the audit-data section,
/// so the search finds nothing.
proof fn lemma_elf_find_from_none(
    d: Seq<u8>,
    c: elf::ElfClass,
    o: ByteOrder,
    shoff: int,
    entsize: int,
    shnum: int,
    stroff: int,
    strsize: int,
    i: int,
)
    requires
        forall|j: int|
            i <= j < shnum ==> !elf::entry_matches(
                d,
                o,
                #[trigger] elf::entry_base(shoff, entsize, j),
                stroff,
                strsize,
            ),
    ensures
        elf::find_from(d, c, o, shoff, entsize, shnum, stroff, strsize, i) == Ok::<
            Option<SectionDescriptor>,
            Error,
        >(None),
    decreases shnum - i,
{
    if i < shnum {
        assert(!elf::entry_matches(d, o, elf::entry_base(shoff, entsize, i), stroff, strsize));
        lemma_elf_find_from_none(d, c, o, shoff, entsize, shnum, stroff, strsize, i + 1);
    }
}

/// An ELF buffer with a correct magic and a structurally valid section
/// header table, none of whose entries names the audit-data section,
/// returns `NoAuditData`.
pub proof fn lemma_elf_no_audit_data(d: Seq<u8>, c: elf::ElfClass, o: ByteOrder)
    requires
        spec_detect(d) == elf_format(c, o),
        d.len() >= elf::header_len(c),
        elf::entry_size(d, c, o) >= elf::min_entry_size(c),
        elf::table_offset(d, c, o) + elf::entry_count(d, c, o) * elf::entry_size(d, c, o)
            <= d.len(),
        elf::strtab_index(d, c, o) < elf::entry_count(d, c, o),
        elf::sec_offset(
            d,
            c,
            o,
            elf::table_offset(d, c, o) + elf::strtab_index(d, c, o) * elf::entry_size(d, c, o),
        ) + elf::sec_size(
            d,
            c,
            o,
            elf::table_offset(d, c, o) + elf::strtab_index(d, c, o) * elf::entry_size(d, c, o),
        ) <= d.len(),
        forall|j: int|
            0 <= j < elf::entry_count(d, c, o) ==> !elf::entry_matches(
                d,
                o,
                #[trigger] elf::entry_base(elf::table_offset(d, c, o), elf::entry_size(d, c, o), j),
                elf::sec_offset(
                    d,
                    c,
                    o,
                    elf::table_offset(d, c, o) + elf::strtab_index(d, c, o) * elf::entry_size(
                        d,
                        c,
                        o,
                    ),
                ),
                elf::sec_size(
                    d,
                    c,
                    o,
                    elf::table_offset(d, c, o) + elf::strtab_index(d, c, o) * elf::entry_size(
                        d,
                        c,
                        o,
                    ),
                ),
            ),
    ensures
        spec_extract(d) == Err::<Seq<u8>, Error>(Error::NoAuditData),
{
    let shoff = elf::table_offset(d, c, o);
    let entsize = elf::entry_size(d, c, o);
    let shnum = elf::entry_count(d, c, o);
    let se = shoff + elf::strtab_index(d, c, o) * entsize;
    let stroff = elf::sec_offset(d, c, o, se);
    let strsize = elf::sec_size(d, c, o, se);
    lemma_elf_find_from_none(d, c, o, shoff, entsize, shnum, stroff, strsize, 0);
}

/// No PE section-table entry from `i` on names the audit-data section,
/// so the search finds nothing.
proof fn lemma_pe_find_from_none(d: Seq<u8>, table: int, nsect: int, i: int)
    requires
        forall|j: int|
            i <= j < nsect ==> !crate::bytes::audit_name_at(d, #[trigger] pe::entry_base(table, j)),
    ensures
        pe::find_from(d, table, nsect, i) == Ok::<Option<SectionDescriptor>, Error>(None),
    decreases nsect - i,
{
    if i < nsect {
        assert(!crate::bytes::audit_name_at(d, pe::entry_base(table, i)));
        lemma_pe_find_from_none(d, table, nsect, i + 1);
    }
}

/// A PE buffer with a correct magic and signature and a structurally
/// valid section table, none of whose entries names the audit-data
/// section, returns `NoAuditData`.
pub proof fn lemma_pe_no_audit_data(d: Seq<u8>)
    requires
        spec_detect(d) == ContainerFormat::PE,
        d.len() >= 0x40,
        crate::bytes::u32_le(d, 0x3c) + 24 <= d.len(),
        pe::pe_signature_at(d, crate::bytes::u32_le(d, 0x3c)),
        crate::bytes::u32_le(d, 0x3c) + 24 + crate::bytes::u16_le(
            d,
            crate::bytes::u32_le(d, 0x3c) + 20,
        ) + crate::bytes::u16_le(d, crate::bytes::u32_le(d, 0x3c) + 6) * 40 <= d.len(),
        forall|j: int|
            0 <= j < crate::bytes::u16_le(d, crate::bytes::u32_le(d, 0x3c) + 6)
                ==> !crate::bytes::audit_name_at(
                d,
                #[trigger] pe::entry_base(
                    crate::bytes::u32_le(d, 0x3c) + 24 + crate::bytes::u16_le(
                        d,
                        crate::bytes::u32_le(d, 0x3c) + 20,
                    ),
                    j,
                ),
            ),
    ensures
        spec_extract(d) == Err::<Seq<u8>, Error>(Error::NoAuditData),
{
    let peoff = crate::bytes::u32_le(d, 0x3c);
    let nsect = crate::bytes::u16_le(d, peoff + 6);
    let table = peoff + 24 + crate::bytes::u16_le(d, peoff + 20);
    lemma_pe_find_from_none(d, table, nsect, 0);
}

/// A WebAssembly module wrapping `payload` as the audit-data custom
/// section: magic, version, then one custom section whose embedded name
/// is the audit-data section name and whose remaining payload is
/// `payload`.
pub open spec fn wasm_wrapped(payload: Seq<u8>) -> Seq<u8> {
    seq![
        0u8,
        0x61u8,
        0x73u8,
        0x6du8,
        1u8,
        0u8,
        0u8,
        0u8,
        0u8,
        (payload.len() + 8) as u8,
        7u8,
    ] + audit_name() + payload
}

/// Round trip: embedding any short enough byte sequence as the audit-data
/// custom section of a WebAssembly module and reading it back yields
/// exactly the original sequence.
pub proof fn lemma_wasm_round_trip(payload: Seq<u8>)
    requires
        payload.len() <= 119,
    ensures
        spec_extract(wasm_wrapped(payload)) == Ok::<Seq<u8>, Error>(payload),
{
    let d = wasm_wrapped(payload);
    let plen = payload.len() as int;
    assert(d.len() == 18 + plen);
    assert(d[0] == 0 && d[1] == 0x61 && d[2] == 0x73 && d[3] == 0x6d);
    assert(spec_detect(d) == ContainerFormat::Wasm);
    assert(d[8] == 0);
    assert(d[9] == plen + 8);
    assert(d[10] == 7);
    assert(wasm::leb_at(d, 9, d.len() as int, 5) == Ok::<(int, int), Error>((plen + 8, 1)));
    assert(wasm::leb_at(d, 10, 18 + plen, 5) == Ok::<(int, int), Error>((7, 1)));
    assert(match_at(d, 11, audit_name())) by {
        assert forall|k: int| 0 <= k < audit_name().len() implies d[11 + k]
            == audit_name()[k] by {
            assert(d[11 + k] == audit_name()[k]);
        }
    }
    assert(wasm::sections_from(d, 8) == Ok::<Option<SectionDescriptor>, Error>(
        Some(SectionDescriptor { file_offset: 18, size: plen as usize }),
    ));
    assert(d.subrange(18, 18 + plen) =~= payload);
}

/// One byte of the minimal ELF64 little-endian image wrapping `payload`:
/// a header whose section header table holds two entries, entry 0 the
/// section-name string table and entry 1 the audit-data section, whose
/// contents is `payload` at the end of the image.
pub open spec fn elf64_wrapped_byte(payload: Seq<u8>, i: int) -> u8 {
    if i == 0 {
        0x7f
    } else if i == 1 {
        0x45
    } else if i == 2 {
        0x4c
    } else if i == 3 {
        0x46
    } else if i == 4 {
        2
    } else if i == 5 {
        1
    } else if i == 0x28 {
        0x40
    } else if i == 0x3a {
        0x40
    } else if i == 0x3c {
        2
    } else if i == 0x58 {
        0xc0
    } else if i == 0x60 {
        9
    } else if i == 0x80 {
        1
    } else if i == 0x98 {
        0xc9
    } else if i == 0xa0 {
        payload.len() as u8
    } else if i == 0xc1 {
        0x2e
    } else if i == 0xc2 {
        0x64
    } else if i == 0xc3 {
        0x65
    } else if i == 0xc4 {
        0x70
    } else if i == 0xc5 {
        0x2d
    } else if i == 0xc6 {
        0x76
    } else if i == 0xc7 {
        0x30
    } else if i < 0xc9 {
        0
    } else {
        payload[i - 0xc9]
    }
}

/// The minimal ELF64 little-endian image wrapping `payload` as the
/// audit-data section.
pub open spec fn elf64_wrapped(payload: Seq<u8>) -> Seq<u8> {
    Seq::new((0xc9 + payload.len()) as nat, |i: int| elf64_wrapped_byte(payload, i))
}

/// Round trip: embedding any short enough byte sequence as the audit-data
/// section of an ELF64 little-endian image and reading it back yields
/// exactly the original sequence.
pub proof fn lemma_elf64_round_trip(payload: Seq<u8>)
    requires
        payload.len() <= 255,
    ensures
        spec_extract(elf64_wrapped(payload)) == Ok::<Seq<u8>, Error>(payload),
{
    let d = elf64_wrapped(payload);
    let plen = payload.len() as int;
    let c = elf::ElfClass::Elf64;
    let o = ByteOrder::LittleEndian;
    assert(d.len() == 0xc9 + plen);
    assert(d[0] == 0x7f && d[1] == 0x45 && d[2] == 0x4c && d[3] == 0x46 && d[4] == 2 && d[5]
        == 1);
    assert(spec_detect(d) == ContainerFormat::Elf64 { byte_order: o });
    assert(elf::table_offset(d, c, o) == 0x40);
    assert(elf::entry_size(d, c, o) == 0x40);
    assert(elf::entry_count(d, c, o) == 2);
    assert(elf::strtab_index(d, c, o) == 0);
    assert(elf::entry_base(0x40, 0x40, 0) == 0x40);
    assert(elf::sec_offset(d, c, o, 0x40) == 0xc0);
    assert(elf::sec_size(d, c, o, 0x40) == 9);
    assert(!elf::entry_matches(d, o, 0x40, 0xc0, 9)) by {
        assert(crate::bytes::u32_at(d, 0x40, o) == 0);
        assert(d[0xc0] == 0);
        assert(audit_name()[0] == 0x2e);
    }
    assert(elf::entry_base(0x40, 0x40, 1) == 0x80);
    assert(elf::entry_matches(d, o, 0x80, 0xc0, 9)) by {
        assert(crate::bytes::u32_at(d, 0x80, o) == 1);
        assert(match_at(d, 0xc1, audit_name())) by {
            assert forall|k: int| 0 <= k < audit_name().len() implies d[0xc1 + k]
                == audit_name()[k] by {
                assert(d[0xc1 + k] == audit_name()[k]);
            }
        }
        assert(d[0xc8] == 0);
    }
    assert(elf::sec_offset(d, c, o, 0x80) == 0xc9);
    assert(elf::sec_size(d, c, o, 0x80) == plen);
    assert(elf::find_from(d, c, o, 0x40, 0x40, 2, 0xc0, 9, 1) == Ok::<
        Option<SectionDescriptor>,
        Error,
    >(Some(SectionDescriptor { file_offset: 0xc9, size: plen as usize })));
    assert(elf::find_from(d, c, o, 0x40, 0x40, 2, 0xc0, 9, 0) == Ok::<
        Option<SectionDescriptor>,
        Error,
    >(Some(SectionDescriptor { file_offset: 0xc9, size: plen as usize })));
    assert(d.subrange(0xc9, 0xc9 + plen) =~= payload);
}

/// One byte of the minimal ELF32 little-endian image wrapping `payload`,
/// laid out like the ELF64 image but with the 32-bit header and entries.
pub open spec fn elf32_wrapped_byte(payload: Seq<u8>, i: int) -> u8 {
    if i == 0 {
        0x7f
    } else if i == 1 {
        0x45
    } else if i == 2 {
        0x4c
    } else if i == 3 {
        0x46
    } else if i == 4 {
        1
    } else if i == 5 {
        1
    } else if i == 0x20 {
        0x34
    } else if i == 0x2e {
        0x28
    } else if i == 0x30 {
        2
    } else if i == 0x44 {
        0x84
    } else if i == 0x48 {
        9
    } else if i == 0x5c {
        1
    } else if i == 0x6c {
        0x8d
    } else if i == 0x70 {
        payload.len() as u8
    } else if i == 0x85 {
        0x2e
    } else if i == 0x86 {
        0x64
    } else if i == 0x87 {
        0x65
    } else if i == 0x88 {
        0x70
    } else if i == 0x89 {
        0x2d
    } else if i == 0x8a {
        0x76
    } else if i == 0x8b {
        0x30
    } else if i < 0x8d {
        0
    } else {
        payload[i - 0x8d]
    }
}

/// The minimal ELF32 little-endian image wrapping `payload` as the
/// audit-data section.
pub open spec fn elf32_wrapped(payload: Seq<u8>) -> Seq<u8> {
    Seq::new((0x8d + payload.len()) as nat, |i: int| elf32_wrapped_byte(payload, i))
}

/// Round trip: embedding any short enough byte sequence as the audit-data
/// section of an ELF32 little-endian image and reading it back yields
/// exactly the original sequence.
pub proof fn lemma_elf32_round_trip(payload: Seq<u8>)
    requires
        payload.len() <= 255,
    ensures
        spec_extract(elf32_wrapped(payload)) == Ok::<Seq<u8>, Error>(payload),
{
    let d = elf32_wrapped(payload);
    let plen = payload.len() as int;
    let c = elf::ElfClass::Elf32;
    let o = ByteOrder::LittleEndian;
    assert(d.len() == 0x8d + plen);
    assert(d[0] == 0x7f && d[1] == 0x45 && d[2] == 0x4c && d[3] == 0x46 && d[4] == 1 && d[5]
        == 1);
    assert(spec_detect(d) == ContainerFormat::Elf32 { byte_order: o });
    assert(elf::table_offset(d, c, o) == 0x34);
    assert(elf::entry_size(d, c, o) == 0x28);
    assert(elf::entry_count(d, c, o) == 2);
    assert(elf::strtab_index(d, c, o) == 0);
    assert(elf::entry_base(0x34, 0x28, 0) == 0x34);
    assert(elf::sec_offset(d, c, o, 0x34) == 0x84);
    assert(elf::sec_size(d, c, o, 0x34) == 9);
    assert(!elf::entry_matches(d, o, 0x34, 0x84, 9)) by {
        assert(crate::bytes::u32_at(d, 0x34, o) == 0);
        assert(d[0x84] == 0);
        assert(audit_name()[0] == 0x2e);
    }
    assert(elf::entry_base(0x34, 0x28, 1) == 0x5c);
    assert(elf::entry_matches(d, o, 0x5c, 0x84, 9)) by {
        assert(crate::bytes::u32_at(d, 0x5c, o) == 1);
        assert(match_at(d, 0x85, audit_name())) by {
            assert forall|k: int| 0 <= k < audit_name().len() implies d[0x85 + k]
                == audit_name()[k] by {
                assert(d[0x85 + k] == audit_name()[k]);
            }
        }
        assert(d[0x8c] == 0);
    }
    assert(elf::sec_offset(d, c, o, 0x5c) == 0x8d);
    assert(elf::sec_size(d, c, o, 0x5c) == plen);
    assert(elf::find_from(d, c, o, 0x34, 0x28, 2, 0x84, 9, 1) == Ok::<
        Option<SectionDescriptor>,
        Error,
    >(Some(SectionDescriptor { file_offset: 0x8d, size: plen as usize })));
    assert(elf::find_from(d, c, o, 0x34, 0x28, 2, 0x84, 9, 0) == Ok::<
        Option<SectionDescriptor>,
        Error,
    >(Some(SectionDescriptor { file_offset: 0x8d, size: plen as usize })));
    assert(d.len() >= elf::header_len(c));
    assert(elf::entry_size(d, c, o) >= elf::min_entry_size(c));
    assert(elf::table_offset(d, c, o) + elf::entry_count(d, c, o) * elf::entry_size(d, c, o)
        <= d.len());
    assert(elf::strtab_index(d, c, o) < elf::entry_count(d, c, o));
    assert(elf::table_offset(d, c, o) + elf::strtab_index(d, c, o) * elf::entry_size(d, c, o)
        == 0x34);
    assert(elf::locate_spec(d, c, o) == elf::find_from(d, c, o, 0x34, 0x28, 2, 0x84, 9, 0));
    assert(spec_extract(d) == crate::payload_of(elf::locate_spec(d, c, o), d));
    assert(d.subrange(0x8d, 0x8d + plen) =~= payload);
}

/// One byte of the minimal PE image wrapping `payload`: the MZ stub, the
/// PE signature at `0x40`, a COFF header declaring one section, and a
/// single section-table entry named for the audit data whose raw data is
/// `payload` at the end of the image.
pub open spec fn pe_wrapped_byte(payload: Seq<u8>, i: int) -> u8 {
    if i == 0 {
        0x4d
    } else if i == 1 {
        0x5a
    } else if i == 0x3c {
        0x40
    } else if i == 0x40 {
        0x50
    } else if i == 0x41 {
        0x45
    } else if i == 0x46 {
        1
    } else if i == 0x58 {
        0x2e
    } else if i == 0x59 {
        0x64
    } else if i == 0x5a {
        0x65
    } else if i == 0x5b {
        0x70
    } else if i == 0x5c {
        0x2d
    } else if i == 0x5d {
        0x76
    } else if i == 0x5e {
        0x30
    } else if i == 0x68 {
        payload.len() as u8
    } else if i == 0x6c {
        0x80
    } else if i < 0x80 {
        0
    } else {
        payload[i - 0x80]
    }
}

/// The minimal PE image wrapping `payload` as the audit-data section.
pub open spec fn pe_wrapped(payload: Seq<u8>) -> Seq<u8> {
    Seq::new((0x80 + payload.len()) as nat, |i: int| pe_wrapped_byte(payload, i))
}

/// Round trip: embedding any short enough byte sequence as the audit-data
/// section of a PE image and reading it back yields exactly the original
/// sequence.
pub proof fn lemma_pe_round_trip(payload: Seq<u8>)
    requires
        payload.len() <= 255,
    ensures
        spec_extract(pe_wrapped(payload)) == Ok::<Seq<u8>, Error>(payload),
{
    let d = pe_wrapped(payload);
    let plen = payload.len() as int;
    assert(d.len() == 0x80 + plen);
    assert(d[0] == 0x4d && d[1] == 0x5a);
    assert(d[2] != 0x4c);
    assert(spec_detect(d) == ContainerFormat::PE);
    assert(crate::bytes::u32_le(d, 0x3c) == 0x40);
    assert(pe::pe_signature_at(d, 0x40));
    assert(crate::bytes::u16_le(d, 0x46) == 1);
    assert(crate::bytes::u16_le(d, 0x54) == 0);
    assert(crate::bytes::audit_name_at(d, 0x58)) by {
        assert(match_at(d, 0x58, audit_name())) by {
            assert forall|k: int| 0 <= k < audit_name().len() implies d[0x58 + k]
                == audit_name()[k] by {
                assert(d[0x58 + k] == audit_name()[k]);
            }
        }
        assert(d[0x5f] == 0);
    }
    assert(crate::bytes::u32_le(d, 0x68) == plen);
    assert(crate::bytes::u32_le(d, 0x6c) == 0x80);
    assert(pe::find_from(d, 0x58, 1, 0) == Ok::<Option<SectionDescriptor>, Error>(
        Some(SectionDescriptor { file_offset: 0x80, size: plen as usize }),
    ));
    assert(d.subrange(0x80, 0x80 + plen) =~= payload);
}

/// One byte of the minimal 64-bit little-endian Mach-O image wrapping
/// `payload`: a header declaring one load command, a `__DATA` segment
/// command with one section entry named for the audit data, whose
/// contents is `payload` at the end of the image.
pub open spec fn macho_wrapped_byte(payload: Seq<u8>, i: int) -> u8 {
    if i == 0 {
        0xcf
    } else if i == 1 {
        0xfa
    } else if i == 2 {
        0xed
    } else if i == 3 {
        0xfe
    } else if i == 16 {
        1
    } else if i == 20 {
        0x98
    } else if i == 32 {
        0x19
    } else if i == 36 {
        0x98
    } else if i == 40 {
        0x5f
    } else if i == 41 {
        0x5f
    } else if i == 42 {
        0x44
    } else if i == 43 {
        0x41
    } else if i == 44 {
        0x54
    } else if i == 45 {
        0x41
    } else if i == 96 {
        1
    } else if i == 104 {
        0x2e
    } else if i == 105 {
        0x64
    } else if i == 106 {
        0x65
    } else if i == 107 {
        0x70
    } else if i == 108 {
        0x2d
    } else if i == 109 {
        0x76
    } else if i == 110 {
        0x30
    } else if i == 144 {
        payload.len() as u8
    } else if i == 152 {
        0xb8
    } else if i < 184 {
        0
    } else {
        payload[i - 184]
    }
}

/// The minimal 64-bit little-endian Mach-O image wrapping `payload` as
/// the audit-data section of its `__DATA` segment.
pub open spec fn macho_wrapped(payload: Seq<u8>) -> Seq<u8> {
    Seq::new((184 + payload.len()) as nat, |i: int| macho_wrapped_byte(payload, i))
}

/// Round trip: embedding any short enough byte sequence as the audit-data
/// section of a 64-bit little-endian Mach-O image and reading it back
/// yields exactly the original sequence.
pub proof fn lemma_macho_round_trip(payload: Seq<u8>)
    requires
        payload.len() <= 255,
    ensures
        spec_extract(macho_wrapped(payload)) == Ok::<Seq<u8>, Error>(payload),
{
    let d = macho_wrapped(payload);
    let plen = payload.len() as int;
    let o = ByteOrder::LittleEndian;
    assert(d.len() == 184 + plen);
    assert(d[0] == 0xcf && d[1] == 0xfa && d[2] == 0xed && d[3] == 0xfe);
    assert(spec_detect(d) == ContainerFormat::MachO);
    assert(crate::macho::magic_kind(d) == Some((true, o)));
    assert(crate::bytes::u32_at(d, 16, o) == 1);
    assert(crate::bytes::u32_at(d, 20, o) == 0x98);
    assert(crate::bytes::u32_at(d, 32, o) == 0x19);
    assert(crate::bytes::u32_at(d, 36, o) == 0x98);
    assert(crate::bytes::data_segment_name_at(d, 40)) by {
        assert(match_at(d, 40, crate::bytes::data_segment_name())) by {
            assert forall|k: int|
                0 <= k < crate::bytes::data_segment_name().len() implies d[40 + k]
                == crate::bytes::data_segment_name()[k] by {
                assert(d[40 + k] == crate::bytes::data_segment_name()[k]);
            }
        }
        assert(d[46] == 0);
    }
    assert(crate::bytes::u32_at(d, 96, o) == 1);
    assert(crate::bytes::audit_name_at(d, 104)) by {
        assert(match_at(d, 104, audit_name())) by {
            assert forall|k: int| 0 <= k < audit_name().len() implies d[104 + k]
                == audit_name()[k] by {
                assert(d[104 + k] == audit_name()[k]);
            }
        }
        assert(d[111] == 0);
    }
    assert(crate::bytes::u64_at(d, 144, o) == plen);
    assert(crate::bytes::u32_at(d, 152, o) == 184);
    assert(crate::macho::scan_sections(d, o, true, 104, 1, 0) == Ok::<
        Option<SectionDescriptor>,
        Error,
    >(Some(SectionDescriptor { file_offset: 184, size: plen as usize })));
    assert(crate::macho::walk(d, o, true, 184, 32, 1) == Ok::<Option<SectionDescriptor>, Error>(
        Some(SectionDescriptor { file_offset: 184, size: plen as usize }),
    ));
    assert(d.subrange(184, 184 + plen) =~= payload);
}

/// An invocation without the directly-requested signal is passed through,
/// whatever its arguments parsed to: argument parsing can never matter.
pub proof fn lemma_bypass_without_signal(facts: Option<UnitFacts>, has_crate_name_arg: bool)
    ensures
        spec_assess(false, facts, has_crate_name_arg) == Eligibility::Bypass,
{
}

} // verus!
