use auditable_extract::inject::{
    assess_invocation, audit_symbol_name, linker_family_of, object_file_name, plan_embedding,
    retention_flag, CrateType, Eligibility, LinkerFamily, UnitFacts,
};

fn facts(types: Vec<CrateType>) -> UnitFacts {
    UnitFacts {
        crate_types: types,
        crate_name: b"demo".to_vec(),
        target: None,
        out_dir: b"/tmp/out".to_vec(),
    }
}

#[test]
fn bypass_without_primary_signal() {
    // without the directly-requested signal, parsing can never matter
    assert_eq!(
        assess_invocation(false, &Some(facts(vec![CrateType::Bin])), true),
        Eligibility::Bypass
    );
    assert_eq!(assess_invocation(false, &None, true), Eligibility::Bypass);
    assert_eq!(assess_invocation(false, &None, false), Eligibility::Bypass);
}

#[test]
fn inject_for_bin_output() {
    assert_eq!(
        assess_invocation(true, &Some(facts(vec![CrateType::Bin])), true),
        Eligibility::Inject
    );
}

#[test]
fn inject_for_cdylib_output() {
    assert_eq!(
        assess_invocation(true, &Some(facts(vec![CrateType::Other, CrateType::Cdylib])), true),
        Eligibility::Inject
    );
}

#[test]
fn bypass_for_other_output_kinds() {
    assert_eq!(
        assess_invocation(true, &Some(facts(vec![CrateType::Other])), true),
        Eligibility::Bypass
    );
    assert_eq!(assess_invocation(true, &Some(facts(vec![])), true), Eligibility::Bypass);
}

#[test]
fn unparsable_compilation_is_fatal() {
    assert_eq!(assess_invocation(true, &None, true), Eligibility::FatalParse);
}

#[test]
fn unparsable_probe_is_bypassed() {
    assert_eq!(assess_invocation(true, &None, false), Eligibility::Bypass);
}

#[test]
fn plan_on_supported_platform() {
    let f = facts(vec![CrateType::Bin]);
    let plan = plan_embedding(&f, b"x86_64-unknown-linux-gnu", true);
    let ld = plan.expect("a supported platform yields exactly one directive");
    assert_eq!(ld.object_file_name, b"demo_audit_data.o".to_vec());
    assert_eq!(ld.retain_family, LinkerFamily::Gnu);
    assert_eq!(
        retention_flag(ld.retain_family),
        "-Clink-arg=-Wl,--undefined=AUDITABLE_VERSION_INFO"
    );
}

#[test]
fn plan_on_apple_platform() {
    let f = facts(vec![CrateType::Bin]);
    let ld = plan_embedding(&f, b"aarch64-apple-darwin", true).unwrap();
    assert_eq!(ld.retain_family, LinkerFamily::Apple);
    assert_eq!(retention_flag(ld.retain_family), "-Clink-arg=-Wl,-u,_AUDITABLE_VERSION_INFO");
}

#[test]
fn plan_on_unsupported_platform() {
    // no synthesized object: no directive, the build goes on without one
    let f = facts(vec![CrateType::Bin]);
    assert!(plan_embedding(&f, b"m68k-unknown-none", false).is_none());
}

#[test]
fn linker_family_edges() {
    assert_eq!(linker_family_of(b""), LinkerFamily::Gnu);
    assert_eq!(linker_family_of(b"-apple-"), LinkerFamily::Apple);
    assert_eq!(linker_family_of(b"apple"), LinkerFamily::Gnu);
    assert_eq!(linker_family_of(b"x86_64-apple-ios"), LinkerFamily::Apple);
    assert_eq!(linker_family_of(b"applesauce-unknown-linux"), LinkerFamily::Gnu);
}

#[test]
fn object_file_name_appends_suffix() {
    assert_eq!(object_file_name(b"demo"), b"demo_audit_data.o".to_vec());
    assert_eq!(object_file_name(b""), b"_audit_data.o".to_vec());
}

#[test]
fn audit_symbol_name_is_fixed() {
    assert_eq!(audit_symbol_name(), "AUDITABLE_VERSION_INFO");
}
