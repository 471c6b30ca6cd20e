//! Classifies a raw byte buffer into one of the supported executable
//! container formats by inspecting a bounded prefix, without ever reading
//! past the buffer.

use vstd::prelude::*;
use vstd::slice::slice_index_get;

use crate::bytes::ByteOrder;

verus! {

/// The container format a buffer was classified as.
#[derive(Debug, Copy, Clone, PartialEq, Eq, Structural)]
pub enum ContainerFormat {
    Elf32 { byte_order: ByteOrder },
    Elf64 { byte_order: ByteOrder },
    MachO,
    PE,
    Wasm,
    Unknown,
}

/// The buffer starts with the ELF magic `0x7F 'E' 'L' 'F'` and carries
/// readable class and endianness bytes.
pub open spec fn has_elf_magic(d: Seq<u8>) -> bool {
    &&& d.len() >= 6
    &&& d[0] == 0x7f
    &&& d[1] == 0x45
    &&& d[2] == 0x4c
    &&& d[3] == 0x46
}

/// The buffer starts with one of the four thin Mach-O magics.
pub open spec fn has_macho_magic(d: Seq<u8>) -> bool {
    &&& d.len() >= 4
    &&& {
        ||| (d[0] == 0xfe && d[1] == 0xed && d[2] == 0xfa && d[3] == 0xce)
        ||| (d[0] == 0xce && d[1] == 0xfa && d[2] == 0xed && d[3] == 0xfe)
        ||| (d[0] == 0xfe && d[1] == 0xed && d[2] == 0xfa && d[3] == 0xcf)
        ||| (d[0] == 0xcf && d[1] == 0xfa && d[2] == 0xed && d[3] == 0xfe)
    }
}

/// The buffer starts with the `MZ` stub of a PE image.
pub open spec fn has_pe_magic(d: Seq<u8>) -> bool {
    &&& d.len() >= 2
    &&& d[0] == 0x4d
    &&& d[1] == 0x5a
}

/// The buffer starts with the WebAssembly module magic `\0asm`.
pub open spec fn has_wasm_magic(d: Seq<u8>) -> bool {
    &&& d.len() >= 4
    &&& d[0] == 0
    &&& d[1] == 0x61
    &&& d[2] == 0x73
    &&& d[3] == 0x6d
}

/// The classification of a buffer: which container format its magic
/// declares, and for ELF which width and byte order.
pub open spec fn spec_detect(d: Seq<u8>) -> ContainerFormat {
    if has_elf_magic(d) {
        let order = if d[5] == 1 {
            Some(ByteOrder::LittleEndian)
        } else if d[5] == 2 {
            Some(ByteOrder::BigEndian)
        } else {
            None
        };
        match order {
            Some(byte_order) => {
                if d[4] == 1 {
                    ContainerFormat::Elf32 { byte_order }
                } else if d[4] == 2 {
                    ContainerFormat::Elf64 { byte_order }
                } else {
                    ContainerFormat::Unknown
                }
            },
            None => ContainerFormat::Unknown,
        }
    } else if has_macho_magic(d) {
        ContainerFormat::MachO
    } else if has_pe_magic(d) {
        ContainerFormat::PE
    } else if has_wasm_magic(d) {
        ContainerFormat::Wasm
    } else {
        ContainerFormat::Unknown
    }
}

/// Classifies `data` by its magic number, reading only a bounded prefix.
pub fn detect_format(data: &[u8]) -> (r: ContainerFormat)
    ensures
        r == spec_detect(data@),
{
    let n = data.len();
    if n >= 6 && *slice_index_get(data, 0) == 0x7f && *slice_index_get(data, 1) == 0x45
        && *slice_index_get(data, 2) == 0x4c && *slice_index_get(data, 3) == 0x46 {
        let class = *slice_index_get(data, 4);
        let endian = *slice_index_get(data, 5);
        let byte_order = if endian == 1 {
            ByteOrder::LittleEndian
        } else if endian == 2 {
            ByteOrder::BigEndian
        } else {
            return ContainerFormat::Unknown;
        };
        if class == 1 {
            ContainerFormat::Elf32 { byte_order }
        } else if class == 2 {
            ContainerFormat::Elf64 { byte_order }
        } else {
            ContainerFormat::Unknown
        }
    } else if n >= 4 && {
        let b0 = *slice_index_get(data, 0);
        let b1 = *slice_index_get(data, 1);
        let b2 = *slice_index_get(data, 2);
        let b3 = *slice_index_get(data, 3);
        (b0 == 0xfe && b1 == 0xed && b2 == 0xfa && b3 == 0xce) || (b0 == 0xce && b1 == 0xfa && b2
            == 0xed && b3 == 0xfe) || (b0 == 0xfe && b1 == 0xed && b2 == 0xfa && b3 == 0xcf) || (b0
            == 0xcf && b1 == 0xfa && b2 == 0xed && b3 == 0xfe)
    } {
        ContainerFormat::MachO
    } else if n >= 2 && *slice_index_get(data, 0) == 0x4d && *slice_index_get(data, 1) == 0x5a {
        ContainerFormat::PE
    } else if n >= 4 && *slice_index_get(data, 0) == 0 && *slice_index_get(data, 1) == 0x61
        && *slice_index_get(data, 2) == 0x73 && *slice_index_get(data, 3) == 0x6d {
        ContainerFormat::Wasm
    } else {
        ContainerFormat::Unknown
    }
}

} // verus!
