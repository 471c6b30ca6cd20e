//! Locates a named custom section inside a WebAssembly module, treating
//! every declared length as untrusted.
//!
//! After the magic and version header the module is a stream of typed,
//! length-prefixed sections. Each variable-length size must decode within
//! a fixed maximum width, and each declared payload length is checked
//! against the remaining buffer before the stream advances. A custom
//! section's leading embedded name is compared against the target; on a
//! match the payload after the name is the result.

use vstd::prelude::*;

use crate::bytes::{audit_name, match_at};
use crate::detect::has_wasm_magic;
use crate::{Error, SectionDescriptor};

verus! {

/// The value and width of the variable-length unsigned integer encoded at
/// `pos`, reading below `limit` and at most `max` bytes: an encoding that
/// runs past `limit` is `UnexpectedEof`; one longer than `max` bytes is
/// `MalformedFile`.
pub open spec fn leb_at(d: Seq<u8>, pos: int, limit: int, max: nat) -> Result<(int, int), Error>
    decreases max,
{
    if max == 0 {
        Err(Error::MalformedFile)
    } else if pos >= limit {
        Err(Error::UnexpectedEof)
    } else {
        let b = d[pos];
        if b < 0x80 {
            Ok((b as int, 1))
        } else {
            match leb_at(d, pos + 1, limit, (max - 1) as nat) {
                Err(e) => Err(e),
                Ok((v, w)) => Ok(((b - 0x80) + 0x80 * v, w + 1)),
            }
        }
    }
}

/// The largest value (plus one) that `max` encoded bytes can carry.
pub open spec fn leb_bound(max: nat) -> int
    decreases max,
{
    if max == 0 {
        1
    } else {
        0x80 * leb_bound((max - 1) as nat)
    }
}

/// A decoded variable-length integer has at least one byte, at most `max`
/// bytes, ends at or before `limit`, and its value is below `leb_bound(max)`.
pub proof fn lemma_leb_at_props(d: Seq<u8>, pos: int, limit: int, max: nat)
    ensures
        leb_at(d, pos, limit, max) matches Ok(r) ==> {
            &&& 1 <= r.1 <= max
            &&& pos + r.1 <= limit
            &&& 0 <= r.0 < leb_bound(max)
        },
    decreases max,
{
    if max > 0 && pos < limit {
        let b = d[pos];
        if b >= 0x80 {
            lemma_leb_at_props(d, pos + 1, limit, (max - 1) as nat);
            let rec = leb_at(d, pos + 1, limit, (max - 1) as nat);
            if rec is Ok {
                let v = rec->Ok_0.0;
                assert(0 <= (b - 0x80) + 0x80 * v);
                assert((b - 0x80) + 0x80 * v < 0x80 * leb_bound((max - 1) as nat)) by {
                    assert(v <= leb_bound((max - 1) as nat) - 1);
                    assert(0x80 * v <= 0x80 * (leb_bound((max - 1) as nat) - 1))
                        by (nonlinear_arith)
                        requires
                            v <= leb_bound((max - 1) as nat) - 1,
                    ;
                }
            }
        } else {
            assert(leb_bound(max) >= 0x80) by {
                assert(leb_bound((max - 1) as nat) >= 1) by {
                    lemma_leb_bound_pos((max - 1) as nat);
                }
            }
        }
    }
}

/// The bound on a variable-length integer's value is positive.
pub proof fn lemma_leb_bound_pos(max: nat)
    ensures
        leb_bound(max) >= 1,
    decreases max,
{
    if max > 0 {
        lemma_leb_bound_pos((max - 1) as nat);
        assert(0x80 * leb_bound((max - 1) as nat) >= 0x80 * 1) by (nonlinear_arith)
            requires
                leb_bound((max - 1) as nat) >= 1,
        ;
    }
}

/// The first section from `pos` on that is a custom section named
/// `.dep-v0`, its payload after the name as a validated descriptor;
/// `Ok(None)` when the stream ends without a match.
pub open spec fn sections_from(d: Seq<u8>, pos: int) -> Result<Option<SectionDescriptor>, Error>
    decreases d.len() - pos,
    via sections_from_decreases
{
    if pos >= d.len() {
        Ok(None)
    } else {
        match leb_at(d, pos + 1, d.len() as int, 5) {
            Err(e) => Err(e),
            Ok((size, w)) => {
                if size > 0xffffffff {
                    Err(Error::MalformedFile)
                } else {
                    let body = pos + 1 + w;
                    let end = body + size;
                    if end > d.len() {
                        Err(Error::UnexpectedEof)
                    } else if d[pos] == 0 {
                        match leb_at(d, body, end, 5) {
                            Err(e) => Err(e),
                            Ok((nlen, nw)) => {
                                let name = body + nw;
                                if name + nlen > end {
                                    Err(Error::MalformedFile)
                                } else if nlen == 7 && match_at(d, name, audit_name()) {
                                    Ok(
                                        Some(
                                            SectionDescriptor {
                                                file_offset: (name + 7) as usize,
                                                size: (end - name - 7) as usize,
                                            },
                                        ),
                                    )
                                } else {
                                    sections_from(d, end)
                                }
                            },
                        }
                    } else {
                        sections_from(d, end)
                    }
                }
            },
        }
    }
}

#[via_fn]
proof fn sections_from_decreases(d: Seq<u8>, pos: int) {
    if pos < d.len() {
        lemma_leb_at_props(d, pos + 1, d.len() as int, 5);
        let rec = leb_at(d, pos + 1, d.len() as int, 5);
        if rec is Ok {
            let body = pos + 1 + rec->Ok_0.1;
            let end = body + rec->Ok_0.0;
            if end <= d.len() {
                lemma_leb_at_props(d, body, end, 5);
            }
        }
    }
}

/// Where the audit-data custom section of a WebAssembly module lies, or
/// why it cannot be found: a buffer too short for the magic and version is
/// `UnexpectedEof`; a missing magic is `MalformedFile`; the section stream
/// decides the rest.
pub open spec fn locate_spec(d: Seq<u8>) -> Result<Option<SectionDescriptor>, Error> {
    if d.len() < 8 {
        Err(Error::UnexpectedEof)
    } else if !has_wasm_magic(d) {
        Err(Error::MalformedFile)
    } else {
        sections_from(d, 8)
    }
}

/// Decodes the variable-length unsigned integer at `pos`, reading below
/// `limit` and at most five bytes.
fn read_leb(data: &[u8], pos: usize, limit: usize, max: u32) -> (r: Result<(u64, usize), Error>)
    requires
        limit <= data@.len(),
        1 <= max <= 5,
    ensures
        (match r {
            Ok(v) => {
                &&& leb_at(data@, pos as int, limit as int, max as nat) == Ok::<(int, int), Error>(
                    (v.0 as int, v.1 as int),
                )
                &&& 1 <= v.1 <= max
                &&& pos + v.1 <= limit
                &&& v.0 < leb_bound(max as nat)
            },
            Err(e) => leb_at(data@, pos as int, limit as int, max as nat) == Err::<
                (int, int),
                Error,
            >(e),
        }),
    decreases max,
{
    proof {
        vstd::slice::axiom_spec_len::<u8>(data);
    }
    if pos >= limit {
        return Err(Error::UnexpectedEof);
    }
    let b = *vstd::slice::slice_index_get(data, pos);
    if b < 0x80 {
        proof {
            lemma_leb_bound_pos((max - 1) as nat);
            assert(leb_bound(max as nat) == 0x80 * leb_bound((max - 1) as nat));
            assert(0x80 * leb_bound((max - 1) as nat) >= 0x80 * 1) by (nonlinear_arith)
                requires
                    leb_bound((max - 1) as nat) >= 1,
            ;
        }
        return Ok(((b as u64), 1));
    }
    if max == 1 {
        return Err(Error::MalformedFile);
    }
    match read_leb(data, pos + 1, limit, max - 1) {
        Err(e) => Err(e),
        Ok((v, w)) => {
            proof {
                assert(0x80 * v < 0x80 * leb_bound((max - 1) as nat)) by (nonlinear_arith)
                    requires
                        v < leb_bound((max - 1) as nat),
                ;
                assert(leb_bound(4nat) == 0x10000000) by {
                    reveal_with_fuel(leb_bound, 6);
                }
                assert(leb_bound((max - 1) as nat) <= leb_bound(4nat)) by {
                    if max == 2 {
                        lemma_leb_bound_monotonic(1nat, 4nat);
                    } else if max == 3 {
                        lemma_leb_bound_monotonic(2nat, 4nat);
                    } else if max == 4 {
                        lemma_leb_bound_monotonic(3nat, 4nat);
                    }
                }
            }
            Ok(((b - 0x80) as u64 + 0x80 * v, w + 1))
        },
    }
}

/// The bound on a variable-length integer's value grows with its width.
pub proof fn lemma_leb_bound_monotonic(a: nat, b: nat)
    requires
        a <= b,
    ensures
        leb_bound(a) <= leb_bound(b),
    decreases b,
{
    if a < b && b > 0 {
        lemma_leb_bound_monotonic(a, (b - 1) as nat);
        lemma_leb_bound_pos((b - 1) as nat);
        assert(0x80 * leb_bound((b - 1) as nat) >= 1 * leb_bound((b - 1) as nat))
            by (nonlinear_arith)
            requires
                leb_bound((b - 1) as nat) >= 1,
        ;
    }
}

/// Locates the audit-data custom section of a WebAssembly module,
/// validating every declared size against the remaining buffer before the
/// section stream advances.
pub fn locate(data: &[u8]) -> (r: Result<Option<SectionDescriptor>, Error>)
    ensures
        r == locate_spec(data@),
{
    let n = data.len();
    if n < 8 {
        return Err(Error::UnexpectedEof);
    }
    let magic_ok = *vstd::slice::slice_index_get(data, 0) == 0
        && *vstd::slice::slice_index_get(data, 1) == 0x61
        && *vstd::slice::slice_index_get(data, 2) == 0x73
        && *vstd::slice::slice_index_get(data, 3) == 0x6d;
    if !magic_ok {
        return Err(Error::MalformedFile);
    }
    let mut pos: usize = 8;
    while pos < n
        invariant
            data@.len() == n,
            8 <= pos,
            locate_spec(data@) == sections_from(data@, pos as int),
        decreases n - pos,
    {
        let id = *vstd::slice::slice_index_get(data, pos);
        let (size, w) = match read_leb(data, pos + 1, n, 5) {
            Ok(vw) => vw,
            Err(e) => {
                return Err(e);
            },
        };
        if size > 0xffffffff {
            return Err(Error::MalformedFile);
        }
        let body: usize = pos + 1 + w;
        if size > (n - body) as u64 {
            return Err(Error::UnexpectedEof);
        }
        let end: usize = body + size as usize;
        if id == 0 {
            let (nlen, nw) = match read_leb(data, body, end, 5) {
                Ok(vw) => vw,
                Err(e) => {
                    return Err(e);
                },
            };
            let name: usize = body + nw;
            if nlen > (end - name) as u64 {
                return Err(Error::MalformedFile);
            }
            let is_target: bool = if nlen == 7 {
                let m = *vstd::slice::slice_index_get(data, name) == 0x2e
                    && *vstd::slice::slice_index_get(data, name + 1) == 0x64
                    && *vstd::slice::slice_index_get(data, name + 2) == 0x65
                    && *vstd::slice::slice_index_get(data, name + 3) == 0x70
                    && *vstd::slice::slice_index_get(data, name + 4) == 0x2d
                    && *vstd::slice::slice_index_get(data, name + 5) == 0x76
                    && *vstd::slice::slice_index_get(data, name + 6) == 0x30;
                proof {
                    if m {
                        assert forall|k: int| 0 <= k < audit_name().len() implies data@[name + k]
                            == audit_name()[k] by {
                            if k == 0 {
                            } else if k == 1 {
                            } else if k == 2 {
                            } else if k == 3 {
                            } else if k == 4 {
                            } else if k == 5 {
                            } else {
                                assert(k == 6);
                            }
                        }
                    } else {
                        if match_at(data@, name as int, audit_name()) {
                            assert(data@[name + 0int] == audit_name()[0]);
                            assert(data@[name + 1int] == audit_name()[1]);
                            assert(data@[name + 2int] == audit_name()[2]);
                            assert(data@[name + 3int] == audit_name()[3]);
                            assert(data@[name + 4int] == audit_name()[4]);
                            assert(data@[name + 5int] == audit_name()[5]);
                            assert(data@[name + 6int] == audit_name()[6]);
                        }
                    }
                }
                m
            } else {
                false
            };
            if is_target {
                return Ok(
                    Some(SectionDescriptor { file_offset: name + 7, size: end - (name + 7) }),
                );
            }
        }
        pos = end;
    }
    assert(sections_from(data@, pos as int) == Ok::<Option<SectionDescriptor>, Error>(None));
    Ok(None)
}

} // verus!
