//! Scenario tests for the two-stage toolchain resolution.

use autocc::env_resolver::{ld_candidate, toolchain_from_environment};
use autocc::fs_resolver::toolchain_from_filesystem;
use autocc::resolve::{cc_argv0, resolve_toolchain};
use autocc::toolchain::{Family, Toolchain};

fn strings(values: &[&str]) -> Vec<String> {
    values.iter().map(|v| v.to_string()).collect()
}

fn family_and_path(t: &Toolchain) -> (Family, String) {
    (t.family(), t.as_ref().to_string())
}

#[test]
fn cc_clang_bare_name() {
    let r = toolchain_from_environment(&Some("clang".to_string()), &None, false).unwrap();
    assert_eq!(family_and_path(&r), (Family::Llvm, "clang".to_string()));
}

#[test]
fn cc_clang_full_path_with_args_keeps_original_value() {
    let cc = "/usr/bin/clang -m64 --target=x86_64".to_string();
    let r = toolchain_from_environment(&Some(cc.clone()), &None, false).unwrap();
    assert_eq!(family_and_path(&r), (Family::Llvm, cc));
}

#[test]
fn cc_gcc_bare_name() {
    let r = toolchain_from_environment(&Some("gcc".to_string()), &None, false).unwrap();
    assert_eq!(family_and_path(&r), (Family::Gnu, "gcc".to_string()));
}

#[test]
fn cc_cross_compiler_gcc_suffix_is_gnu() {
    let cc = "aarch64-linux-gnu-gcc".to_string();
    let r = toolchain_from_environment(&Some(cc.clone()), &None, false).unwrap();
    assert_eq!(family_and_path(&r), (Family::Gnu, cc));
}

#[test]
fn cc_cross_compiler_gcc_infix_is_gnu() {
    let cc = "/opt/cross/bin/x86_64-linux-gnu-gcc-12 -O2".to_string();
    let r = toolchain_from_environment(&Some(cc.clone()), &None, false).unwrap();
    assert_eq!(family_and_path(&r), (Family::Gnu, cc));
}

#[test]
fn cc_unrecognized_falls_through_to_ld() {
    let r = toolchain_from_environment(
        &Some("tcc".to_string()),
        &Some("/usr/bin/ld".to_string()),
        true,
    )
    .unwrap();
    assert_eq!(family_and_path(&r), (Family::Gnu, "/usr/bin/gcc".to_string()));
}

#[test]
fn cc_unrecognized_and_no_ld_is_a_miss() {
    let r = toolchain_from_environment(&Some("tcc".to_string()), &None, false);
    assert!(r.is_none());
}

#[test]
fn empty_cc_is_treated_as_absent() {
    let r = toolchain_from_environment(&Some(String::new()), &None, false);
    assert!(r.is_none());
}

#[test]
fn ld_lld_names_a_sibling_clang_candidate() {
    let cand = ld_candidate("/usr/bin/ld.lld").unwrap();
    assert_eq!(
        family_and_path(&cand),
        (Family::Llvm, "/usr/bin/clang".to_string())
    );
}

#[test]
fn ld_lld_with_existing_sibling_resolves_llvm() {
    let r =
        toolchain_from_environment(&None, &Some("/usr/bin/ld.lld".to_string()), true).unwrap();
    assert_eq!(family_and_path(&r), (Family::Llvm, "/usr/bin/clang".to_string()));
}

#[test]
fn ld_lld_with_missing_sibling_is_a_miss_and_filesystem_decides() {
    let ld = Some("/usr/bin/ld.lld".to_string());
    assert!(toolchain_from_environment(&None, &ld, false).is_none());

    let dirs = strings(&["/usr/local/bin", "/usr/bin"]);
    let r = resolve_toolchain(
        &None,
        &ld,
        false,
        &dirs,
        &vec![false, false],
        &vec![false, true],
    )
    .unwrap();
    assert_eq!(family_and_path(&r), (Family::Gnu, "/usr/bin/gcc".to_string()));
}

#[test]
fn ld_plain_ld_resolves_gnu_sibling() {
    let r = toolchain_from_environment(&None, &Some("/usr/bin/ld".to_string()), true).unwrap();
    assert_eq!(family_and_path(&r), (Family::Gnu, "/usr/bin/gcc".to_string()));
}

#[test]
fn ld_gold_resolves_gnu_sibling() {
    let r =
        toolchain_from_environment(&None, &Some("/usr/bin/ld.gold".to_string()), true).unwrap();
    assert_eq!(family_and_path(&r), (Family::Gnu, "/usr/bin/gcc".to_string()));
}

#[test]
fn ld_unrecognized_is_a_miss() {
    let r = toolchain_from_environment(&None, &Some("/usr/bin/mold".to_string()), true);
    assert!(r.is_none());
}

#[test]
fn filesystem_prefers_clang_over_gcc() {
    let dirs = strings(&["/usr/local/bin", "/usr/bin", "/bin"]);
    let clang_present = vec![false, true, false];
    let gcc_present = vec![true, true, true];
    let r = toolchain_from_filesystem(&dirs, &clang_present, &gcc_present).unwrap();
    assert_eq!(family_and_path(&r), (Family::Llvm, "/usr/bin/clang".to_string()));
}

#[test]
fn filesystem_falls_back_to_gcc() {
    let dirs = strings(&["/usr/local/bin", "/usr/bin", "/bin"]);
    let clang_present = vec![false, false, false];
    let gcc_present = vec![false, true, false];
    let r = toolchain_from_filesystem(&dirs, &clang_present, &gcc_present).unwrap();
    assert_eq!(family_and_path(&r), (Family::Gnu, "/usr/bin/gcc".to_string()));
}

#[test]
fn nothing_anywhere_is_total_failure() {
    let dirs = strings(&["/usr/local/bin", "/usr/bin", "/bin"]);
    let nowhere = vec![false, false, false];
    let r = resolve_toolchain(&None, &None, false, &dirs, &nowhere, &nowhere);
    assert!(r.is_none());
}

#[test]
fn environment_beats_filesystem() {
    let dirs = strings(&["/usr/bin"]);
    let r = resolve_toolchain(
        &Some("clang".to_string()),
        &None,
        false,
        &dirs,
        &vec![false],
        &vec![true],
    )
    .unwrap();
    assert_eq!(family_and_path(&r), (Family::Llvm, "clang".to_string()));
}

#[test]
fn reported_program_name_is_the_generic_cc() {
    assert_eq!(cc_argv0(), "/usr/bin/cc".to_string());
}
