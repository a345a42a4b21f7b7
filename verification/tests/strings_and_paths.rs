//! Tests for the string and path utilities under the resolvers.

use autocc::env_resolver::{env_var_without_args, tool_relative_to_path};
use autocc::fs_resolver::{find_in_path, search_dirs};
use autocc::strutil::{
    bare_name_of, contains_str, ends_with_str, join_path, split_str, starts_with_str, str_eq,
};

fn strings(values: &[&str]) -> Vec<String> {
    values.iter().map(|v| v.to_string()).collect()
}

#[test]
fn bare_name_strips_path_and_arguments() {
    assert_eq!(
        env_var_without_args(&Some("/usr/bin/x86_64-linux-gnu-gcc -m64".to_string())),
        Some("x86_64-linux-gnu-gcc".to_string())
    );
}

#[test]
fn bare_name_of_a_bare_name_is_itself() {
    assert_eq!(env_var_without_args(&Some("clang".to_string())), Some("clang".to_string()));
}

#[test]
fn bare_name_of_unset_variable_is_none() {
    assert_eq!(env_var_without_args(&None), None);
}

#[test]
fn bare_name_of_empty_value_is_empty() {
    assert_eq!(env_var_without_args(&Some(String::new())), Some(String::new()));
}

#[test]
fn bare_name_takes_the_component_after_the_last_slash() {
    assert_eq!(bare_name_of("a/b/c"), "c".to_string());
    assert_eq!(bare_name_of("cc -B /x"), "x".to_string());
}

#[test]
fn sibling_lookup_replaces_the_file_name() {
    assert_eq!(tool_relative_to_path("/usr/bin/ld.lld", "clang"), "/usr/bin/clang".to_string());
    assert_eq!(tool_relative_to_path("a/b/ld", "gcc"), "a/b/gcc".to_string());
}

#[test]
fn sibling_lookup_of_a_bare_name_is_the_bare_tool() {
    assert_eq!(tool_relative_to_path("ld", "gcc"), "gcc".to_string());
}

#[test]
fn join_path_inserts_a_separator_when_needed() {
    assert_eq!(join_path("/usr/bin", "clang"), "/usr/bin/clang".to_string());
    assert_eq!(join_path("/usr/bin/", "clang"), "/usr/bin/clang".to_string());
    assert_eq!(join_path("", "clang"), "clang".to_string());
}

#[test]
fn split_keeps_empty_pieces() {
    assert_eq!(split_str("a:b::c", ':'), strings(&["a", "b", "", "c"]));
    assert_eq!(split_str("", ':'), strings(&[""]));
    assert_eq!(split_str("abc", ':'), strings(&["abc"]));
}

#[test]
fn search_dirs_splits_path_at_colons() {
    assert_eq!(search_dirs(&Some("/a:/b".to_string())), strings(&["/a", "/b"]));
}

#[test]
fn search_dirs_defaults_when_path_is_unset_or_empty() {
    let default = strings(&["/usr/local/bin", "/usr/bin", "/bin"]);
    assert_eq!(search_dirs(&None), default);
    assert_eq!(search_dirs(&Some(String::new())), default);
}

#[test]
fn find_in_path_takes_the_first_hit() {
    let dirs = strings(&["/a", "/b", "/c"]);
    assert_eq!(
        find_in_path(&dirs, "clang", &vec![false, true, true]),
        Some("/b/clang".to_string())
    );
    assert_eq!(find_in_path(&dirs, "clang", &vec![false, false, false]), None);
}

#[test]
fn string_predicates() {
    assert!(str_eq("clang", "clang"));
    assert!(!str_eq("clang", "clan"));
    assert!(ends_with_str("aarch64-linux-gnu-gcc", "-gcc"));
    assert!(!ends_with_str("gcc", "-gcc"));
    assert!(starts_with_str("ld.gold", "ld."));
    assert!(!starts_with_str("ld", "ld."));
    assert!(contains_str("x86_64-linux-gnu-gcc-12", "-gcc-"));
    assert!(!contains_str("clang", "-gcc-"));
    assert!(contains_str("anything", ""));
}
