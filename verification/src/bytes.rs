//! Bounded reads of fixed-width integers and name fields out of an
//! untrusted byte buffer, in either byte order.

use vstd::prelude::*;
use vstd::slice::slice_index_get;

verus! {

/// The byte order an ELF or Mach-O header declares for its fields.
#[derive(Debug, Copy, Clone, PartialEq, Eq, Structural)]
pub enum ByteOrder {
    LittleEndian,
    BigEndian,
}

/// The 16-bit field stored at `i`, little-endian.
pub open spec fn u16_le(d: Seq<u8>, i: int) -> int {
    d[i] + 0x100 * d[i + 1]
}

/// The 16-bit field stored at `i`, big-endian.
pub open spec fn u16_be(d: Seq<u8>, i: int) -> int {
    d[i + 1] + 0x100 * d[i]
}

/// The 32-bit field stored at `i`, little-endian.
pub open spec fn u32_le(d: Seq<u8>, i: int) -> int {
    d[i] + 0x100 * d[i + 1] + 0x10000 * d[i + 2] + 0x1000000 * d[i + 3]
}

/// The 32-bit field stored at `i`, big-endian.
pub open spec fn u32_be(d: Seq<u8>, i: int) -> int {
    d[i + 3] + 0x100 * d[i + 2] + 0x10000 * d[i + 1] + 0x1000000 * d[i]
}

/// The 64-bit field stored at `i`, little-endian.
pub open spec fn u64_le(d: Seq<u8>, i: int) -> int {
    u32_le(d, i) + 0x100000000 * u32_le(d, i + 4)
}

/// The 64-bit field stored at `i`, big-endian.
pub open spec fn u64_be(d: Seq<u8>, i: int) -> int {
    u32_be(d, i + 4) + 0x100000000 * u32_be(d, i)
}

/// The 16-bit field stored at `i` in byte order `o`.
pub open spec fn u16_at(d: Seq<u8>, i: int, o: ByteOrder) -> int {
    match o {
        ByteOrder::LittleEndian => u16_le(d, i),
        ByteOrder::BigEndian => u16_be(d, i),
    }
}

/// The 32-bit field stored at `i` in byte order `o`.
pub open spec fn u32_at(d: Seq<u8>, i: int, o: ByteOrder) -> int {
    match o {
        ByteOrder::LittleEndian => u32_le(d, i),
        ByteOrder::BigEndian => u32_be(d, i),
    }
}

/// The 64-bit field stored at `i` in byte order `o`.
pub open spec fn u64_at(d: Seq<u8>, i: int, o: ByteOrder) -> int {
    match o {
        ByteOrder::LittleEndian => u64_le(d, i),
        ByteOrder::BigEndian => u64_be(d, i),
    }
}

/// Reads the 16-bit field stored at `i` in byte order `o`.
pub fn read_u16(d: &[u8], i: usize, o: ByteOrder) -> (r: u16)
    requires
        i + 2 <= d@.len(),
    ensures
        r == u16_at(d@, i as int, o),
{
    proof {
        vstd::slice::axiom_spec_len::<u8>(d);
    }
    let b0 = *slice_index_get(d, i) as u16;
    let b1 = *slice_index_get(d, i + 1) as u16;
    match o {
        ByteOrder::LittleEndian => b0 + 0x100 * b1,
        ByteOrder::BigEndian => b1 + 0x100 * b0,
    }
}

/// Reads the 32-bit field stored at `i` in byte order `o`.
pub fn read_u32(d: &[u8], i: usize, o: ByteOrder) -> (r: u32)
    requires
        i + 4 <= d@.len(),
    ensures
        r == u32_at(d@, i as int, o),
{
    proof {
        vstd::slice::axiom_spec_len::<u8>(d);
    }
    let b0 = *slice_index_get(d, i) as u32;
    let b1 = *slice_index_get(d, i + 1) as u32;
    let b2 = *slice_index_get(d, i + 2) as u32;
    let b3 = *slice_index_get(d, i + 3) as u32;
    match o {
        ByteOrder::LittleEndian => b0 + 0x100 * b1 + 0x10000 * b2 + 0x1000000 * b3,
        ByteOrder::BigEndian => b3 + 0x100 * b2 + 0x10000 * b1 + 0x1000000 * b0,
    }
}

/// Reads the 64-bit field stored at `i` in byte order `o`.
pub fn read_u64(d: &[u8], i: usize, o: ByteOrder) -> (r: u64)
    requires
        i + 8 <= d@.len(),
    ensures
        r == u64_at(d@, i as int, o),
{
    proof {
        vstd::slice::axiom_spec_len::<u8>(d);
    }
    match o {
        ByteOrder::LittleEndian => {
            let lo = read_u32(d, i, o) as u64;
            let hi = read_u32(d, i + 4, o) as u64;
            lo + 0x100000000 * hi
        },
        ByteOrder::BigEndian => {
            let lo = read_u32(d, i + 4, o) as u64;
            let hi = read_u32(d, i, o) as u64;
            lo + 0x100000000 * hi
        },
    }
}

/// Reads the single byte stored at `i`.
pub fn read_u8(d: &[u8], i: usize) -> (r: u8)
    requires
        i < d@.len(),
    ensures
        r == d@[i as int],
{
    *slice_index_get(d, i)
}

/// The bytes of `pat` occur in `d` starting at position `p`.
pub open spec fn match_at(d: Seq<u8>, p: int, pat: Seq<u8>) -> bool {
    &&& 0 <= p
    &&& p + pat.len() <= d.len()
    &&& forall|k: int| 0 <= k < pat.len() ==> d[p + k] == pat[k]
}

/// The name of the audit-data section, `.dep-v0`, as raw bytes.
pub open spec fn audit_name() -> Seq<u8> {
    seq![0x2eu8, 0x64u8, 0x65u8, 0x70u8, 0x2du8, 0x76u8, 0x30u8]
}

/// The Mach-O segment that carries the audit-data section, `__DATA`, as raw bytes.
pub open spec fn data_segment_name() -> Seq<u8> {
    seq![0x5fu8, 0x5fu8, 0x44u8, 0x41u8, 0x54u8, 0x41u8]
}

/// A NUL-terminated occurrence of the audit-data section name at `p`:
/// the seven name bytes followed by a terminating zero byte.
pub open spec fn audit_name_at(d: Seq<u8>, p: int) -> bool {
    &&& 0 <= p
    &&& p + 8 <= d.len()
    &&& match_at(d, p, audit_name())
    &&& d[p + 7] == 0
}

/// A NUL-terminated occurrence of the `__DATA` segment name at `p`.
pub open spec fn data_segment_name_at(d: Seq<u8>, p: int) -> bool {
    &&& 0 <= p
    &&& p + 7 <= d.len()
    &&& match_at(d, p, data_segment_name())
    &&& d[p + 6] == 0
}

/// Checks for the NUL-terminated audit-data section name at `p`.
pub fn check_audit_name_at(d: &[u8], p: usize) -> (r: bool)
    requires
        p + 8 <= d@.len(),
    ensures
        r == audit_name_at(d@, p as int),
{
    proof {
        vstd::slice::axiom_spec_len::<u8>(d);
    }
    let r = *slice_index_get(d, p) == 0x2e && *slice_index_get(d, p + 1) == 0x64
        && *slice_index_get(d, p + 2) == 0x65 && *slice_index_get(d, p + 3) == 0x70
        && *slice_index_get(d, p + 4) == 0x2d && *slice_index_get(d, p + 5) == 0x76
        && *slice_index_get(d, p + 6) == 0x30 && *slice_index_get(d, p + 7) == 0;
    proof {
        if r {
            assert forall|k: int| 0 <= k < audit_name().len() implies d@[p + k]
                == audit_name()[k] by {
                if k == 0 {
                } else if k == 1 {
                } else if k == 2 {
                } else if k == 3 {
                } else if k == 4 {
                } else if k == 5 {
                } else {
                    assert(k == 6);
                }
            }
        } else {
            if audit_name_at(d@, p as int) {
                assert(d@[p + 0int] == audit_name()[0]);
                assert(d@[p + 1int] == audit_name()[1]);
                assert(d@[p + 2int] == audit_name()[2]);
                assert(d@[p + 3int] == audit_name()[3]);
                assert(d@[p + 4int] == audit_name()[4]);
                assert(d@[p + 5int] == audit_name()[5]);
                assert(d@[p + 6int] == audit_name()[6]);
            }
        }
    }
    r
}

/// Checks for the NUL-terminated `__DATA` segment name at `p`.
pub fn check_data_segment_name_at(d: &[u8], p: usize) -> (r: bool)
    requires
        p + 7 <= d@.len(),
    ensures
        r == data_segment_name_at(d@, p as int),
{
    proof {
        vstd::slice::axiom_spec_len::<u8>(d);
    }
    let r = *slice_index_get(d, p) == 0x5f && *slice_index_get(d, p + 1) == 0x5f
        && *slice_index_get(d, p + 2) == 0x44 && *slice_index_get(d, p + 3) == 0x41
        && *slice_index_get(d, p + 4) == 0x54 && *slice_index_get(d, p + 5) == 0x41
        && *slice_index_get(d, p + 6) == 0;
    proof {
        if r {
            assert forall|k: int| 0 <= k < data_segment_name().len() implies d@[p + k]
                == data_segment_name()[k] by {
                if k == 0 {
                } else if k == 1 {
                } else if k == 2 {
                } else if k == 3 {
                } else if k == 4 {
                } else {
                    assert(k == 5);
                }
            }
        } else {
            if data_segment_name_at(d@, p as int) {
                assert(d@[p + 0int] == data_segment_name()[0]);
                assert(d@[p + 1int] == data_segment_name()[1]);
                assert(d@[p + 2int] == data_segment_name()[2]);
                assert(d@[p + 3int] == data_segment_name()[3]);
                assert(d@[p + 4int] == data_segment_name()[4]);
                assert(d@[p + 5int] == data_segment_name()[5]);
            }
        }
    }
    r
}

} // verus!
