//! The complete resolution chain: the environment resolver first, the
//! filesystem resolver on a miss. A total miss of both is the one fatal
//! outcome; the caller reports it and exits non-zero.

use vstd::prelude::*;
use vstd::string::*;

use crate::env_resolver::{env_pick, toolchain_from_environment};
use crate::fs_resolver::{fs_pick, toolchain_from_filesystem};
use crate::strutil::str_views;
use crate::toolchain::{matches_pick, opt_view, Family, Toolchain};

verus! {

/// What the whole two-stage resolution picks: the environment's answer when
/// it has one, otherwise the filesystem scan's.
pub open spec fn resolution_pick(
    cc: Option<Seq<char>>,
    ld: Option<Seq<char>>,
    ld_sibling_exists: bool,
    dirs: Seq<Seq<char>>,
    clang_present: Seq<bool>,
    gcc_present: Seq<bool>,
) -> Option<(Family, Seq<char>)> {
    let from_env = env_pick(cc, ld, ld_sibling_exists);
    if from_env is Some {
        from_env
    } else {
        fs_pick(dirs, clang_present, gcc_present)
    }
}

/// Run the two resolvers in their strict priority order. A `None` result is
/// total resolution failure: no toolchain anywhere, and the process cannot
/// proceed.
pub fn resolve_toolchain(
    cc: &Option<String>,
    ld: &Option<String>,
    ld_sibling_exists: bool,
    dirs: &Vec<String>,
    clang_present: &Vec<bool>,
    gcc_present: &Vec<bool>,
) -> (r: Option<Toolchain>)
    requires
        clang_present@.len() == dirs@.len(),
        gcc_present@.len() == dirs@.len(),
    ensures
        matches_pick(
            r,
            resolution_pick(
                opt_view(*cc),
                opt_view(*ld),
                ld_sibling_exists,
                str_views(dirs@),
                clang_present@,
                gcc_present@,
            ),
        ),
{
    match toolchain_from_environment(cc, ld, ld_sibling_exists) {
        Some(t) => Some(t),
        None => toolchain_from_filesystem(dirs, clang_present, gcc_present),
    }
}

/// The program name every replacement image reports, whatever real binary
/// runs: callers keep seeing the generic `cc` they invoked.
pub fn cc_argv0() -> (r: String)
    ensures
        r@ == "/usr/bin/cc"@,
{
    String::from_str("/usr/bin/cc")
}

} // verus!
