//! The filesystem resolver: locating a compiler on the search path when the
//! environment gave no usable hint. The scan itself is pure: the caller
//! probes the filesystem and hands in, per directory, whether the candidate
//! executable exists there.

use vstd::prelude::*;
use vstd::string::*;

use crate::strutil::{
    join_path, join_path_spec, lemma_index_of_first_absent, lemma_index_of_first_is,
    opt_str_matches, split_on, split_str, str_views,
};
use crate::toolchain::{matches_pick, opt_view, Family, Toolchain};

verus! {

/// The fixed fallback search list used when `PATH` is unset or empty.
pub open spec fn default_search_list() -> Seq<Seq<char>> {
    seq!["/usr/local/bin"@, "/usr/bin"@, "/bin"@]
}

/// The ordered directory list the filesystem resolver scans: `PATH` split at
/// `:`, or the conventional system directories when `PATH` is unset or
/// empty.
pub open spec fn search_list(path: Option<Seq<char>>) -> Seq<Seq<char>> {
    match path {
        Some(p) => if p.len() == 0 {
            default_search_list()
        } else {
            split_on(p, ':')
        },
        None => default_search_list(),
    }
}

/// Where the scan for one name first hits: the name joined to the first
/// directory whose probe answered "exists", if any did.
pub open spec fn found_path(
    dirs: Seq<Seq<char>>,
    present: Seq<bool>,
    name: Seq<char>,
) -> Option<Seq<char>> {
    match present.index_of_first(true) {
        Some(i) => Some(join_path_spec(dirs[i], name)),
        None => None,
    }
}

/// The filesystem resolver's whole answer: `clang` anywhere on the list
/// beats `gcc` anywhere — the fixed tie-break toward LLVM when the
/// environment expressed no preference.
pub open spec fn fs_pick(
    dirs: Seq<Seq<char>>,
    clang_present: Seq<bool>,
    gcc_present: Seq<bool>,
) -> Option<(Family, Seq<char>)> {
    match found_path(dirs, clang_present, "clang"@) {
        Some(p) => Some((Family::Llvm, p)),
        None => match found_path(dirs, gcc_present, "gcc"@) {
            Some(p) => Some((Family::Gnu, p)),
            None => None,
        },
    }
}

/// The directories to scan, as executable values.
pub fn search_dirs(path: &Option<String>) -> (r: Vec<String>)
    ensures
        str_views(r@) == search_list(opt_view(*path)),
{
    match path {
        Some(p) => {
            if p.as_str().unicode_len() == 0 {
                default_dirs()
            } else {
                split_str(p.as_str(), ':')
            }
        },
        None => default_dirs(),
    }
}

fn default_dirs() -> (r: Vec<String>)
    ensures
        str_views(r@) == default_search_list(),
{
    let mut v: Vec<String> = Vec::new();
    v.push(String::from_str("/usr/local/bin"));
    v.push(String::from_str("/usr/bin"));
    v.push(String::from_str("/bin"));
    proof {
        assert(str_views(v@) =~= default_search_list());
    }
    v
}

/// Scan the search list for one executable name. `present[i]` answers
/// whether `name` joined to `dirs[i]` names an existing file; the first hit,
/// in list order, wins.
pub fn find_in_path(dirs: &Vec<String>, name: &str, present: &Vec<bool>) -> (r: Option<String>)
    requires
        present@.len() == dirs@.len(),
    ensures
        opt_str_matches(r, found_path(str_views(dirs@), present@, name@)),
{
    let mut i: usize = 0;
    while i < dirs.len()
        invariant
            present@.len() == dirs@.len(),
            0 <= i <= dirs@.len(),
            forall|j: int| 0 <= j < i ==> !present@[j],
        decreases dirs@.len() - i,
    {
        if present[i] {
            proof {
                lemma_index_of_first_is(present@, true, i as int);
                assert(str_views(dirs@)[i as int] == dirs@[i as int]@);
            }
            return Some(join_path(dirs[i].as_str(), name));
        }
        i += 1;
    }
    proof {
        lemma_index_of_first_absent(present@, true);
    }
    None
}

/// The filesystem resolver: prefer `clang` at any directory of the search
/// list, fall back to `gcc`, and report a soft miss when neither is present
/// anywhere.
pub fn toolchain_from_filesystem(
    dirs: &Vec<String>,
    clang_present: &Vec<bool>,
    gcc_present: &Vec<bool>,
) -> (r: Option<Toolchain>)
    requires
        clang_present@.len() == dirs@.len(),
        gcc_present@.len() == dirs@.len(),
    ensures
        matches_pick(r, fs_pick(str_views(dirs@), clang_present@, gcc_present@)),
{
    if let Some(p) = find_in_path(dirs, "clang", clang_present) {
        Some(Toolchain::LLVM(p))
    } else if let Some(p) = find_in_path(dirs, "gcc", gcc_present) {
        Some(Toolchain::GNU(p))
    } else {
        None
    }
}

} // verus!
