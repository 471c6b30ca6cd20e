//! Locates the `.dep-v0` audit-data section inside executable containers
//! (ELF 32/64-bit, Mach-O, PE/COFF, WebAssembly) without copying or
//! allocating, treating every field of the input as untrusted, and plans
//! the build-time injection of that section into a compiled unit.

use vstd::prelude::*;

pub mod bytes;
pub mod detect;
pub mod elf;
pub mod inject;
pub mod laws;
pub mod macho;
pub mod pe;
pub mod wasm;

verus! {

/// Everything that can go wrong while looking for the audit-data section.
#[derive(Debug, Copy, Clone, PartialEq, Eq, Structural)]
pub enum Error {
    /// The container format was recognized but no audit-data section exists.
    NoAuditData,
    /// The buffer does not begin with any recognized container magic.
    NotAnExecutable,
    /// A declared offset, length or count would require reading past the buffer.
    UnexpectedEof,
    /// A structural inconsistency: bad magic combination, inconsistent header
    /// fields, or a non-decodable variable-length encoding.
    MalformedFile,
    /// The symbols section a format requires is absent.
    SymbolsSectionIsMissing,
    /// A section a format requires is absent.
    SectionIsMissing,
    /// A section does not have the type its role requires.
    UnexpectedSectionType,
}

impl Error {
    /// A human-readable description of the error, one fixed sentence per
    /// variant.
    pub fn message(&self) -> (r: &'static str)
        ensures
            *self == Error::NoAuditData ==> r@ == "No audit data found in the executable"@,
            *self == Error::NotAnExecutable ==> r@ == "Not an executable file"@,
            *self == Error::UnexpectedEof ==> r@ == "Unexpected end of file"@,
            *self == Error::MalformedFile ==> r@ == "Malformed executable file"@,
            *self == Error::SymbolsSectionIsMissing ==> r@
                == "Symbols section missing from executable"@,
            *self == Error::SectionIsMissing ==> r@ == "Section is missing from executable"@,
            *self == Error::UnexpectedSectionType ==> r@ == "Unexpected executable section type"@,
    {
        match self {
            Error::NoAuditData => "No audit data found in the executable",
            Error::NotAnExecutable => "Not an executable file",
            Error::UnexpectedEof => "Unexpected end of file",
            Error::MalformedFile => "Malformed executable file",
            Error::SymbolsSectionIsMissing => "Symbols section missing from executable",
            Error::SectionIsMissing => "Section is missing from executable",
            Error::UnexpectedSectionType => "Unexpected executable section type",
        }
    }
}

/// A validated byte range inside the buffer it was located in.
///
/// Every descriptor a locator returns satisfies
/// `file_offset + size <= buffer.len()`; one that would not is never built.
#[derive(Debug, Copy, Clone, PartialEq, Eq, Structural)]
pub struct SectionDescriptor {
    pub file_offset: usize,
    pub size: usize,
}

/// Turns a locator's answer into the located bytes themselves: a present
/// descriptor becomes the byte range it covers, an absent section becomes
/// `NoAuditData`, and a locator error passes through.
pub open spec fn payload_of(r: Result<Option<SectionDescriptor>, Error>, d: Seq<u8>) -> Result<
    Seq<u8>,
    Error,
> {
    match r {
        Ok(Some(sd)) => Ok(d.subrange(sd.file_offset as int, sd.file_offset + sd.size)),
        Ok(None) => Err(Error::NoAuditData),
        Err(e) => Err(e),
    }
}

/// The audit-data payload embedded in an executable buffer, or the error
/// that describes why there is none: the buffer's magic selects the
/// format, the format's locator finds the section, and an unrecognized
/// magic is `NotAnExecutable`.
pub open spec fn spec_extract(d: Seq<u8>) -> Result<Seq<u8>, Error> {
    match detect::spec_detect(d) {
        detect::ContainerFormat::Elf32 { byte_order } => payload_of(
            elf::locate_spec(d, elf::ElfClass::Elf32, byte_order),
            d,
        ),
        detect::ContainerFormat::Elf64 { byte_order } => payload_of(
            elf::locate_spec(d, elf::ElfClass::Elf64, byte_order),
            d,
        ),
        detect::ContainerFormat::MachO => payload_of(macho::locate_spec(d), d),
        detect::ContainerFormat::PE => payload_of(pe::locate_spec(d), d),
        detect::ContainerFormat::Wasm => payload_of(wasm::locate_spec(d), d),
        detect::ContainerFormat::Unknown => Err(Error::NotAnExecutable),
    }
}

/// A located descriptor never reaches past its buffer.
pub proof fn lemma_locators_bounded(d: Seq<u8>)
    ensures
        forall|c: elf::ElfClass, o: bytes::ByteOrder|
            (#[trigger] elf::locate_spec(d, c, o)) matches Ok(Some(sd)) ==> sd.file_offset
                + sd.size <= d.len(),
        macho::locate_spec(d) matches Ok(Some(sd)) ==> sd.file_offset + sd.size <= d.len(),
        pe::locate_spec(d) matches Ok(Some(sd)) ==> sd.file_offset + sd.size <= d.len(),
        wasm::locate_spec(d) matches Ok(Some(sd)) ==> sd.file_offset + sd.size <= d.len(),
{
    assert forall|c: elf::ElfClass, o: bytes::ByteOrder|
        (#[trigger] elf::locate_spec(d, c, o)) matches Ok(Some(sd)) ==> sd.file_offset + sd.size
        <= d.len() by {
        lemma_elf_find_bounded(d, c, o);
    }
    lemma_macho_walk_bounded(d);
    lemma_pe_find_bounded(d);
    lemma_wasm_sections_bounded(d);
}

proof fn lemma_elf_find_bounded(d: Seq<u8>, c: elf::ElfClass, o: bytes::ByteOrder)
    ensures
        elf::locate_spec(d, c, o) matches Ok(Some(sd)) ==> sd.file_offset + sd.size <= d.len(),
{
    if d.len() >= elf::header_len(c) {
        let shoff = elf::table_offset(d, c, o);
        let entsize = elf::entry_size(d, c, o);
        let shnum = elf::entry_count(d, c, o);
        let shstrndx = elf::strtab_index(d, c, o);
        let se = shoff + shstrndx * entsize;
        let stroff = elf::sec_offset(d, c, o, se);
        let strsize = elf::sec_size(d, c, o, se);
        lemma_elf_find_from_bounded(d, c, o, shoff, entsize, shnum, stroff, strsize, 0);
    }
}

proof fn lemma_elf_find_from_bounded(
    d: Seq<u8>,
    c: elf::ElfClass,
    o: bytes::ByteOrder,
    shoff: int,
    entsize: int,
    shnum: int,
    stroff: int,
    strsize: int,
    i: int,
)
    ensures
        elf::find_from(d, c, o, shoff, entsize, shnum, stroff, strsize, i) matches Ok(Some(sd))
            ==> sd.file_offset + sd.size <= d.len(),
    decreases shnum - i,
{
    if i < shnum {
        lemma_elf_find_from_bounded(d, c, o, shoff, entsize, shnum, stroff, strsize, i + 1);
    }
}

proof fn lemma_pe_find_bounded(d: Seq<u8>)
    ensures
        pe::locate_spec(d) matches Ok(Some(sd)) ==> sd.file_offset + sd.size <= d.len(),
{
    if d.len() >= 0x40 {
        let peoff = bytes::u32_le(d, 0x3c);
        let nsect = bytes::u16_le(d, peoff + 6);
        let optsize = bytes::u16_le(d, peoff + 20);
        let table = peoff + 24 + optsize;
        lemma_pe_find_from_bounded(d, table, nsect, 0);
    }
}

proof fn lemma_pe_find_from_bounded(d: Seq<u8>, table: int, nsect: int, i: int)
    ensures
        pe::find_from(d, table, nsect, i) matches Ok(Some(sd)) ==> sd.file_offset + sd.size
            <= d.len(),
    decreases nsect - i,
{
    if i < nsect {
        lemma_pe_find_from_bounded(d, table, nsect, i + 1);
    }
}

proof fn lemma_macho_scan_bounded(
    d: Seq<u8>,
    o: bytes::ByteOrder,
    is64: bool,
    base: int,
    nsects: int,
    j: int,
)
    ensures
        macho::scan_sections(d, o, is64, base, nsects, j) matches Ok(Some(sd)) ==> sd.file_offset
            + sd.size <= d.len(),
    decreases nsects - j,
{
    if j < nsects {
        lemma_macho_scan_bounded(d, o, is64, base, nsects, j + 1);
    }
}

proof fn lemma_macho_walk_rec_bounded(
    d: Seq<u8>,
    o: bytes::ByteOrder,
    is64: bool,
    bound: int,
    pos: int,
    remaining: int,
)
    ensures
        macho::walk(d, o, is64, bound, pos, remaining) matches Ok(Some(sd)) ==> sd.file_offset
            + sd.size <= d.len(),
    decreases remaining,
{
    if remaining > 0 && pos + 8 <= bound {
        let cmdsize = bytes::u32_at(d, pos + 4, o);
        let nsects = bytes::u32_at(d, pos + macho::nsects_offset(is64), o);
        lemma_macho_scan_bounded(d, o, is64, pos + macho::seg_header_size(is64), nsects, 0);
        lemma_macho_walk_rec_bounded(d, o, is64, bound, pos + cmdsize, remaining - 1);
    }
}

proof fn lemma_macho_walk_bounded(d: Seq<u8>)
    ensures
        macho::locate_spec(d) matches Ok(Some(sd)) ==> sd.file_offset + sd.size <= d.len(),
{
    match macho::magic_kind(d) {
        Some((is64, o)) => {
            if d.len() >= macho::header_size(is64) {
                let ncmds = bytes::u32_at(d, 16, o);
                let sizeofcmds = bytes::u32_at(d, 20, o);
                lemma_macho_walk_rec_bounded(
                    d,
                    o,
                    is64,
                    macho::header_size(is64) + sizeofcmds,
                    macho::header_size(is64),
                    ncmds,
                );
            }
        },
        None => {},
    }
}

proof fn lemma_wasm_sections_rec_bounded(d: Seq<u8>, pos: int)
    ensures
        wasm::sections_from(d, pos) matches Ok(Some(sd)) ==> sd.file_offset + sd.size <= d.len(),
    decreases d.len() - pos,
{
    if pos < d.len() {
        let rec = wasm::leb_at(d, pos + 1, d.len() as int, 5);
        if rec is Ok {
            wasm::lemma_leb_at_props(d, pos + 1, d.len() as int, 5);
            let body = pos + 1 + rec->Ok_0.1;
            let end = body + rec->Ok_0.0;
            if end <= d.len() {
                lemma_wasm_sections_rec_bounded(d, end);
            }
        }
    }
}

proof fn lemma_wasm_sections_bounded(d: Seq<u8>)
    ensures
        wasm::locate_spec(d) matches Ok(Some(sd)) ==> sd.file_offset + sd.size <= d.len(),
{
    if d.len() >= 8 {
        lemma_wasm_sections_rec_bounded(d, 8);
    }
}

/// Extracts the audit-data payload embedded in an executable buffer,
/// returning a slice borrowed from the buffer itself: no copy, no
/// allocation. The result, success or error, is exactly what
/// `spec_extract` says for these bytes.
pub fn raw_auditable_data(data: &[u8]) -> (r: Result<&[u8], Error>)
    ensures
        (match r {
            Ok(s) => spec_extract(data@) == Ok::<Seq<u8>, Error>(s@),
            Err(e) => spec_extract(data@) == Err::<Seq<u8>, Error>(e),
        }),
{
    proof {
        vstd::slice::axiom_spec_len::<u8>(data);
        lemma_locators_bounded(data@);
    }
    let fmt = detect::detect_format(data);
    let located: Result<Option<SectionDescriptor>, Error> = match fmt {
        detect::ContainerFormat::Elf32 { byte_order } => elf::locate(
            data,
            elf::ElfClass::Elf32,
            byte_order,
        ),
        detect::ContainerFormat::Elf64 { byte_order } => elf::locate(
            data,
            elf::ElfClass::Elf64,
            byte_order,
        ),
        detect::ContainerFormat::MachO => macho::locate(data),
        detect::ContainerFormat::PE => pe::locate(data),
        detect::ContainerFormat::Wasm => wasm::locate(data),
        detect::ContainerFormat::Unknown => {
            return Err(Error::NotAnExecutable);
        },
    };
    match located {
        Ok(Some(sd)) => Ok(
            vstd::slice::slice_subrange(data, sd.file_offset, sd.file_offset + sd.size),
        ),
        Ok(None) => Err(Error::NoAuditData),
        Err(e) => Err(e),
    }
}

/// Extracts the audit-data payload of a WebAssembly module directly,
/// without running the format detector first.
pub fn raw_auditable_data_wasm_for_fuzz(input: &[u8]) -> (r: Result<&[u8], Error>)
    ensures
        (match r {
            Ok(s) => payload_of(wasm::locate_spec(input@), input@) == Ok::<Seq<u8>, Error>(s@),
            Err(e) => payload_of(wasm::locate_spec(input@), input@) == Err::<Seq<u8>, Error>(e),
        }),
{
    proof {
        vstd::slice::axiom_spec_len::<u8>(input);
        lemma_locators_bounded(input@);
    }
    match wasm::locate(input) {
        Ok(Some(sd)) => Ok(
            vstd::slice::slice_subrange(input, sd.file_offset, sd.file_offset + sd.size),
        ),
        Ok(None) => Err(Error::NoAuditData),
        Err(e) => Err(e),
    }
}

} // verus!
