//! The environment resolver: inferring a toolchain from the `CC` and `LD`
//! override variables, without touching the filesystem. The one piece of
//! filesystem knowledge it needs — whether the sibling executable named by an
//! `LD` candidate exists — is handed in as a plain flag.

use vstd::prelude::*;
use vstd::string::*;

use crate::strutil::{
    bare_name, bare_name_of, bare_start_of, contains_str, ends_with, ends_with_str, has_infix,
    sibling_path, starts_with, starts_with_str, str_eq,
};
use crate::toolchain::{matches_pick, opt_view, Family, Toolchain};

verus! {

/// What the `CC` variable alone picks: a bare name `clang` means LLVM; `gcc`
/// or a cross-compiler pattern (ending in `-gcc`, or with `-gcc-` as an
/// infix) means GNU; anything else is a soft miss. A hit carries the full
/// original `CC` value as the path, arguments and all: an explicit override
/// is trusted verbatim.
pub open spec fn cc_pick(cc: Seq<char>) -> Option<(Family, Seq<char>)> {
    let name = bare_name(cc);
    if name == "clang"@ {
        Some((Family::Llvm, cc))
    } else if name == "gcc"@ || ends_with(name, "-gcc"@) || has_infix(name, "-gcc-"@) {
        Some((Family::Gnu, cc))
    } else {
        None
    }
}

/// The candidate that the `LD` variable names, existence not yet checked:
/// the lld linker (named `lld` or `ld.lld`) points at a sibling `clang`, the
/// GNU-style linkers (`ld`, or any other `ld.`-prefixed name such as
/// `ld.gold` or `ld.bfd`) at a sibling `gcc`.
pub open spec fn ld_candidate_pick(ld: Seq<char>) -> Option<(Family, Seq<char>)> {
    let name = bare_name(ld);
    if name == "lld"@ || name == "ld.lld"@ {
        Some((Family::Llvm, sibling_path(ld, "clang"@)))
    } else if name == "ld"@ || starts_with(name, "ld."@) {
        Some((Family::Gnu, sibling_path(ld, "gcc"@)))
    } else {
        None
    }
}

/// What `LD` picks once the filesystem has answered whether the sibling
/// executable exists: a missing sibling is a soft miss, never an error.
pub open spec fn ld_pick(ld: Seq<char>, sibling_exists: bool) -> Option<(Family, Seq<char>)> {
    if sibling_exists {
        ld_candidate_pick(ld)
    } else {
        None
    }
}

/// The environment resolver's whole answer: `CC` has priority; `LD` is
/// consulted only when `CC` is absent or names nothing recognizable.
pub open spec fn env_pick(
    cc: Option<Seq<char>>,
    ld: Option<Seq<char>>,
    ld_sibling_exists: bool,
) -> Option<(Family, Seq<char>)> {
    let from_cc = match cc {
        Some(c) => cc_pick(c),
        None => None,
    };
    if from_cc is Some {
        from_cc
    } else {
        match ld {
            Some(l) => ld_pick(l, ld_sibling_exists),
            None => None,
        }
    }
}

/// Demangle an environment variable's value into just the binary name: the
/// component after the last `/`, cut before any trailing arguments.
pub fn env_var_without_args(value: &Option<String>) -> (r: Option<String>)
    ensures
        match value {
            Some(v) => r matches Some(b) && b@ == bare_name(v@),
            None => r is None,
        },
{
    match value {
        Some(v) => Some(bare_name_of(v.as_str())),
        None => None,
    }
}

/// Sibling lookup: the path of `tool` placed in the directory of `path`.
pub fn tool_relative_to_path(path: &str, tool: &str) -> (r: String)
    ensures
        r@ == sibling_path(path@, tool@),
{
    let start = bare_start_of(path);
    String::from_str(path.substring_char(0, start)).concat(tool)
}

/// Classify one `CC` value.
fn toolchain_from_cc_value(v: &String) -> (r: Option<Toolchain>)
    ensures
        matches_pick(r, cc_pick(v@)),
{
    let name = bare_name_of(v.as_str());
    if str_eq(name.as_str(), "clang") {
        Some(Toolchain::LLVM(v.clone()))
    } else if str_eq(name.as_str(), "gcc") || ends_with_str(name.as_str(), "-gcc")
        || contains_str(name.as_str(), "-gcc-") {
        Some(Toolchain::GNU(v.clone()))
    } else {
        None
    }
}

/// The candidate that an `LD` value names, its sibling's existence still
/// unchecked: the caller probes the returned path and feeds the answer to
/// [`toolchain_from_environment`].
pub fn ld_candidate(ld: &str) -> (r: Option<Toolchain>)
    ensures
        matches_pick(r, ld_candidate_pick(ld@)),
{
    let name = bare_name_of(ld);
    if str_eq(name.as_str(), "lld") || str_eq(name.as_str(), "ld.lld") {
        Some(Toolchain::LLVM(tool_relative_to_path(ld, "clang")))
    } else if str_eq(name.as_str(), "ld") || starts_with_str(name.as_str(), "ld.") {
        Some(Toolchain::GNU(tool_relative_to_path(ld, "gcc")))
    } else {
        None
    }
}

/// Try to pick the toolchain from the environment alone. `cc` and `ld` are
/// the values of the variables of those names (`None` when unset);
/// `ld_sibling_exists` reports whether the sibling executable named by the
/// `LD` candidate (see [`ld_candidate`]) exists on the filesystem.
pub fn toolchain_from_environment(
    cc: &Option<String>,
    ld: &Option<String>,
    ld_sibling_exists: bool,
) -> (r: Option<Toolchain>)
    ensures
        matches_pick(r, env_pick(opt_view(*cc), opt_view(*ld), ld_sibling_exists)),
{
    if let Some(v) = cc {
        let t = toolchain_from_cc_value(v);
        if t.is_some() {
            return t;
        }
    }
    if let Some(v) = ld {
        if ld_sibling_exists {
            return ld_candidate(v.as_str());
        }
    }
    None
}

} // verus!
