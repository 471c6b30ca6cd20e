//! Decides, for one compiled build unit, whether and how to splice the
//! audit-data object into the link step.
//!
//! The decision logic is a pure function of the facts handed in: the
//! build-system signal that this unit was directly requested, the parsed
//! invocation facts, and whether the raw argument list names a unit. The
//! surrounding process plumbing performs the argument parsing, the object
//! synthesis and the compiler invocation, and hands their outcomes in as
//! plain values.

use vstd::prelude::*;

use crate::bytes::match_at;

verus! {

/// An output kind a build unit declares; only `Bin` and `Cdylib` receive
/// audit data.
#[derive(Debug, Copy, Clone, PartialEq, Eq, Structural)]
pub enum CrateType {
    Bin,
    Cdylib,
    Other,
}

/// The facts about one compilation the injector needs, extracted from the
/// invocation's arguments: declared output kinds, declared unit name,
/// explicit target platform if any, and the unit's private output
/// directory.
#[derive(Debug, Clone, PartialEq, Eq)]
pub struct UnitFacts {
    pub crate_types: Vec<CrateType>,
    pub crate_name: Vec<u8>,
    pub target: Option<Vec<u8>>,
    pub out_dir: Vec<u8>,
}

/// What to do with one build-unit invocation: pass it through unchanged,
/// augment it with audit data, or fail because a genuine compilation's
/// arguments could not be parsed.
#[derive(Debug, Copy, Clone, PartialEq, Eq, Structural)]
pub enum Eligibility {
    Bypass,
    Inject,
    FatalParse,
}

/// The linker convention the target platform follows for keeping an
/// otherwise-unreferenced symbol alive.
#[derive(Debug, Copy, Clone, PartialEq, Eq, Structural)]
pub enum LinkerFamily {
    Apple,
    Gnu,
}

/// The extra link inputs for one injected build unit: the synthesized
/// object's file name inside the unit's output directory, and the linker
/// family whose symbol-retention flag must accompany it.
#[derive(Debug, Clone, PartialEq, Eq)]
pub struct LinkDirective {
    pub object_file_name: Vec<u8>,
    pub retain_family: LinkerFamily,
}

/// The unit declares at least one output kind that receives audit data.
pub open spec fn wants_injection(types: Seq<CrateType>) -> bool {
    exists|i: int|
        0 <= i < types.len() && (types[i] == CrateType::Bin || types[i] == CrateType::Cdylib)
}

/// The decision for one invocation: a unit that was not directly
/// requested is passed through; a parsed unit is injected exactly when it
/// declares an eligible output kind; an unparsable invocation is fatal
/// exactly when the raw arguments name a unit, and otherwise treated as a
/// non-compilation probe and passed through.
pub open spec fn spec_assess(
    primary: bool,
    facts: Option<UnitFacts>,
    has_crate_name_arg: bool,
) -> Eligibility {
    if !primary {
        Eligibility::Bypass
    } else {
        match facts {
            Some(f) => if wants_injection(f.crate_types@) {
                Eligibility::Inject
            } else {
                Eligibility::Bypass
            },
            None => if has_crate_name_arg {
                Eligibility::FatalParse
            } else {
                Eligibility::Bypass
            },
        }
    }
}

/// Decides what to do with one invocation. `primary` is the build-system
/// signal that this unit was directly requested; `facts` is the outcome
/// of parsing the invocation's arguments; `has_crate_name_arg` reports
/// whether the raw argument list carries a "declare unit name" argument.
pub fn assess_invocation(primary: bool, facts: &Option<UnitFacts>, has_crate_name_arg: bool) -> (r:
    Eligibility)
    ensures
        r == spec_assess(primary, *facts, has_crate_name_arg),
        !primary ==> r == Eligibility::Bypass,
{
    if !primary {
        return Eligibility::Bypass;
    }
    match facts {
        Some(f) => {
            let mut i: usize = 0;
            let m = f.crate_types.len();
            while i < m
                invariant
                    primary,
                    *facts == Some(*f),
                    i <= m,
                    m == f.crate_types@.len(),
                    forall|j: int|
                        0 <= j < i ==> !(f.crate_types@[j] == CrateType::Bin || f.crate_types@[j]
                            == CrateType::Cdylib),
                decreases m - i,
            {
                let t = f.crate_types[i];
                if t == CrateType::Bin || t == CrateType::Cdylib {
                    proof {
                        assert(f.crate_types@[i as int] == CrateType::Bin || f.crate_types@[
                            i as int] == CrateType::Cdylib);
                        assert(wants_injection(f.crate_types@));
                    }
                    return Eligibility::Inject;
                }
                i = i + 1;
            }
            Eligibility::Bypass
        },
        None => {
            if has_crate_name_arg {
                Eligibility::FatalParse
            } else {
                Eligibility::Bypass
            }
        },
    }
}

/// The platform marker that selects the Apple linker convention, the
/// `-apple-` infix of a target triple, as raw bytes.
pub open spec fn apple_marker() -> Seq<u8> {
    seq![0x2du8, 0x61u8, 0x70u8, 0x70u8, 0x6cu8, 0x65u8, 0x2du8]
}

/// The needle occurs somewhere in the haystack.
pub open spec fn contains_seq(h: Seq<u8>, n: Seq<u8>) -> bool {
    exists|i: int| 0 <= i <= h.len() - n.len() && match_at(h, i, n)
}

/// The linker family of a target platform: Apple-style for a triple with
/// the `-apple-` infix, GNU/LLVM-style for every other.
pub open spec fn linker_family(triple: Seq<u8>) -> LinkerFamily {
    if contains_seq(triple, apple_marker()) {
        LinkerFamily::Apple
    } else {
        LinkerFamily::Gnu
    }
}

/// Checks for the `-apple-` marker at position `p`.
fn check_apple_marker_at(d: &[u8], p: usize) -> (r: bool)
    requires
        p + 7 <= d@.len(),
    ensures
        r == match_at(d@, p as int, apple_marker()),
{
    proof {
        vstd::slice::axiom_spec_len::<u8>(d);
    }
    let r = *vstd::slice::slice_index_get(d, p) == 0x2d && *vstd::slice::slice_index_get(d, p + 1)
        == 0x61 && *vstd::slice::slice_index_get(d, p + 2) == 0x70 && *vstd::slice::slice_index_get(
        d,
        p + 3,
    ) == 0x70 && *vstd::slice::slice_index_get(d, p + 4) == 0x6c && *vstd::slice::slice_index_get(
        d,
        p + 5,
    ) == 0x65 && *vstd::slice::slice_index_get(d, p + 6) == 0x2d;
    proof {
        if r {
            assert forall|k: int| 0 <= k < apple_marker().len() implies d@[p + k]
                == apple_marker()[k] by {
                if k == 0 {
                } else if k == 1 {
                } else if k == 2 {
                } else if k == 3 {
                } else if k == 4 {
                } else if k == 5 {
                } else {
                    assert(k == 6);
                }
            }
        } else {
            if match_at(d@, p as int, apple_marker()) {
                assert(d@[p + 0int] == apple_marker()[0]);
                assert(d@[p + 1int] == apple_marker()[1]);
                assert(d@[p + 2int] == apple_marker()[2]);
                assert(d@[p + 3int] == apple_marker()[3]);
                assert(d@[p + 4int] == apple_marker()[4]);
                assert(d@[p + 5int] == apple_marker()[5]);
                assert(d@[p + 6int] == apple_marker()[6]);
            }
        }
    }
    r
}

/// Determines the linker family of a target triple.
pub fn linker_family_of(triple: &[u8]) -> (r: LinkerFamily)
    ensures
        r == linker_family(triple@),
{
    let n = triple.len();
    if n < 7 {
        return LinkerFamily::Gnu;
    }
    let mut i: usize = 0;
    while i <= n - 7
        invariant
            7 <= n == triple@.len(),
            i <= n - 7 + 1,
            forall|j: int| 0 <= j < i ==> !match_at(triple@, j, apple_marker()),
        decreases n - i,
    {
        if check_apple_marker_at(triple, i) {
            return LinkerFamily::Apple;
        }
        i = i + 1;
    }
    LinkerFamily::Gnu
}

/// The symbol-retention flag for the linker family, spelled as the
/// compiler argument that forwards it to the linker.
pub fn retention_flag(family: LinkerFamily) -> (r: &'static str)
    ensures
        family == LinkerFamily::Apple ==> r@ == "-Clink-arg=-Wl,-u,_AUDITABLE_VERSION_INFO"@,
        family == LinkerFamily::Gnu ==> r@ == "-Clink-arg=-Wl,--undefined=AUDITABLE_VERSION_INFO"@,
{
    match family {
        LinkerFamily::Apple => "-Clink-arg=-Wl,-u,_AUDITABLE_VERSION_INFO",
        LinkerFamily::Gnu => "-Clink-arg=-Wl,--undefined=AUDITABLE_VERSION_INFO",
    }
}

/// The symbol under which the audit data is placed in the synthesized
/// object, the one the retention flag keeps alive.
pub fn audit_symbol_name() -> (r: &'static str)
    ensures
        r@ == "AUDITABLE_VERSION_INFO"@,
{
    "AUDITABLE_VERSION_INFO"
}

/// The suffix appended to a unit's declared name to form its audit-data
/// object file name, `_audit_data.o`, as raw bytes.
pub open spec fn object_suffix() -> Seq<u8> {
    seq![
        0x5fu8,
        0x61u8,
        0x75u8,
        0x64u8,
        0x69u8,
        0x74u8,
        0x5fu8,
        0x64u8,
        0x61u8,
        0x74u8,
        0x61u8,
        0x2eu8,
        0x6fu8,
    ]
}

/// Builds the audit-data object's file name from the unit's declared
/// name, collision-free inside the unit's private output directory.
pub fn object_file_name(crate_name: &[u8]) -> (r: Vec<u8>)
    ensures
        r@ == crate_name@ + object_suffix(),
{
    proof {
        vstd::slice::axiom_spec_len::<u8>(crate_name);
    }
    let mut r: Vec<u8> = Vec::new();
    let n = crate_name.len();
    let mut i: usize = 0;
    while i < n
        invariant
            i <= n == crate_name@.len(),
            r@ == crate_name@.subrange(0, i as int),
        decreases n - i,
    {
        r.push(*vstd::slice::slice_index_get(crate_name, i));
        proof {
            assert(r@ =~= crate_name@.subrange(0, i + 1));
        }
        i = i + 1;
    }
    proof {
        assert(r@ =~= crate_name@);
    }
    r.push(0x5f);
    r.push(0x61);
    r.push(0x75);
    r.push(0x64);
    r.push(0x69);
    r.push(0x74);
    r.push(0x5f);
    r.push(0x64);
    r.push(0x61);
    r.push(0x74);
    r.push(0x61);
    r.push(0x2e);
    r.push(0x6f);
    proof {
        assert(r@ =~= crate_name@ + object_suffix());
    }
    r
}

/// Plans the embedding step for an eligible unit. `have_object` reports
/// whether the object synthesizer produced an object for the target
/// platform: exactly then is there a directive, carrying the object file
/// name derived from the unit's declared name and the platform's linker
/// family; an unsupported platform yields none, and the build goes on
/// without embedding.
pub fn plan_embedding(facts: &UnitFacts, target_triple: &[u8], have_object: bool) -> (r: Option<
    LinkDirective,
>)
    ensures
        r is Some <==> have_object,
        r matches Some(ld) ==> {
            &&& ld.object_file_name@ == facts.crate_name@ + object_suffix()
            &&& ld.retain_family == linker_family(target_triple@)
        },
{
    if !have_object {
        return None;
    }
    let name = object_file_name(facts.crate_name.as_slice());
    let family = linker_family_of(target_triple);
    Some(LinkDirective { object_file_name: name, retain_family: family })
}

} // verus!
