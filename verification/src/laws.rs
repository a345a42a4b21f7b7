//! The guarantees the resolution algorithm gives, stated and proved once,
//! over all inputs.

use vstd::prelude::*;

use crate::env_resolver::{cc_pick, env_pick, ld_pick};
use crate::fs_resolver::fs_pick;
use crate::resolve::resolution_pick;
use crate::strutil::{
    bare_name, bare_start, ends_with, has_infix, join_path_spec, lemma_index_of_first_absent,
    lemma_index_of_first_is, lemma_index_of_last_absent, lemma_index_of_last_is, sibling_path,
};
use crate::toolchain::Family;

verus! {

/// An explicit `CC` override of the form `<anything>/clang[ <args>]`, with
/// the arguments free of `/`, always resolves to LLVM, and the path it
/// resolves to is the full original `CC` value — arguments preserved.
pub proof fn lemma_cc_clang_is_llvm(prefix: Seq<char>, args: Seq<char>)
    requires
        !args.contains('/'),
        args.len() > 0 ==> args[0] == ' ',
    ensures
        cc_pick(prefix + "/clang"@ + args) == Some(
            (Family::Llvm, prefix + "/clang"@ + args),
        ),
{
    reveal_strlit("/clang");
    reveal_strlit("clang");
    let cc = prefix + "/clang"@ + args;
    let sl = prefix.len() as int;
    assert(cc[sl] == '/');
    assert forall|j: int| sl < j < cc.len() implies cc[j] != '/' by {
        if j < sl + 6 {
            assert(cc[j] == "/clang"@[j - sl]);
        } else {
            assert(cc[j] == args[j - sl - 6]);
            if cc[j] == '/' {
                assert(args.contains('/')) by {
                    assert(args[j - sl - 6] == '/');
                }
            }
        }
    }
    lemma_index_of_last_is(cc, '/', sl);
    assert(bare_start(cc) == sl + 1);
    let tail = cc.subrange(sl + 1, cc.len() as int);
    assert(tail =~= "clang"@ + args);
    if args.len() == 0 {
        assert(forall|j: int| 0 <= j < tail.len() ==> tail[j] != ' ');
        lemma_index_of_first_absent(tail, ' ');
        assert(bare_name(cc) =~= "clang"@);
    } else {
        assert(tail[5] == ' ');
        assert(forall|j: int| 0 <= j < 5 ==> tail[j] != ' ');
        lemma_index_of_first_is(tail, ' ', 5);
        assert(bare_name(cc) =~= "clang"@);
    }
}

/// A `CC` override whose bare executable name ends in `-gcc` or carries
/// `-gcc-` as an infix — cross-compiler triplet naming — always resolves to
/// GNU, with the full original `CC` value as the path.
pub proof fn lemma_cc_gcc_pattern_is_gnu(cc: Seq<char>)
    requires
        ends_with(bare_name(cc), "-gcc"@) || has_infix(bare_name(cc), "-gcc-"@),
    ensures
        cc_pick(cc) == Some((Family::Gnu, cc)),
{
    reveal_strlit("clang");
    reveal_strlit("-gcc");
    reveal_strlit("-gcc-");
    let name = bare_name(cc);
    if name == "clang"@ {
        if ends_with(name, "-gcc"@) {
            assert(name.subrange(1, 5)[3] == name[4]);
        } else {
            let k = choose|k: int|
                0 <= k && k + 5 <= name.len() && #[trigger] name.subrange(k, k + 5)
                    == "-gcc-"@;
            assert(name.subrange(k, k + 5)[0] == name[k]);
        }
    }
}

/// When the `CC` value carries no arguments (no space anywhere), a `-gcc`
/// ending survives the bare-name extraction: the extracted name ends in
/// `-gcc` too, so such a value resolves to GNU by the law above.
pub proof fn lemma_gcc_suffix_survives_extraction(cc: Seq<char>)
    requires
        ends_with(cc, "-gcc"@),
        !cc.contains(' '),
    ensures
        ends_with(bare_name(cc), "-gcc"@),
{
    reveal_strlit("-gcc");
    let n = cc.len() as int;
    let start = bare_start(cc);
    cc.index_of_last_ensures('/');
    assert(0 <= start <= n);
    // The last '/' sits before the '-gcc' tail: none of its characters is '/'.
    assert(start <= n - 4) by {
        if start > n - 4 {
            let i = start - 1;
            assert(cc[i] == '/');
            assert(cc.subrange(n - 4, n)[i - (n - 4)] == cc[i]);
        }
    }
    // No space anywhere, so the name runs to the end of the value.
    let tail = cc.subrange(start, n);
    assert forall|j: int| 0 <= j < tail.len() implies tail[j] != ' ' by {
        assert(tail[j] == cc[start + j]);
        if tail[j] == ' ' {
            assert(cc.contains(' ')) by {
                assert(cc[start + j] == ' ');
            }
        }
    }
    lemma_index_of_first_absent(tail, ' ');
    let name = bare_name(cc);
    assert(name =~= tail);
    assert(name.subrange(name.len() - 4, name.len() as int) =~= cc.subrange(n - 4, n));
}

/// A value that carries no path separator and no arguments is its own bare
/// executable name: extraction changes nothing.
pub proof fn lemma_plain_value_is_its_own_name(v: Seq<char>)
    requires
        !v.contains('/'),
        !v.contains(' '),
    ensures
        bare_name(v) == v,
{
    assert forall|j: int| 0 <= j < v.len() implies v[j] != '/' by {
        if v[j] == '/' {
            assert(v.contains('/'));
        }
    }
    lemma_index_of_last_absent(v, '/');
    let tail = v.subrange(0, v.len() as int);
    assert forall|j: int| 0 <= j < tail.len() implies tail[j] != ' ' by {
        if tail[j] == ' ' {
            assert(v.contains(' ')) by {
                assert(v[j] == ' ');
            }
        }
    }
    lemma_index_of_first_absent(tail, ' ');
    assert(bare_name(v) =~= v);
}

/// A `CC` naming neither `clang`, `gcc`, nor a `-gcc` pattern never decides:
/// the environment resolver treats it exactly like an unset `CC` and falls
/// through to examine `LD`.
pub proof fn lemma_unrecognized_cc_falls_through(
    cc: Seq<char>,
    ld: Option<Seq<char>>,
    ld_sibling_exists: bool,
)
    requires
        cc_pick(cc) is None,
    ensures
        env_pick(Some(cc), ld, ld_sibling_exists) == env_pick(None, ld, ld_sibling_exists),
{
}

/// An `LD` whose bare name is the lld linker picks LLVM with the sibling
/// `clang` path — when that sibling exists. When it does not, `LD` decides
/// nothing: a soft miss, never an error.
pub proof fn lemma_ld_lld_sibling(ld: Seq<char>)
    requires
        bare_name(ld) == "lld"@ || bare_name(ld) == "ld.lld"@,
    ensures
        ld_pick(ld, true) == Some((Family::Llvm, sibling_path(ld, "clang"@))),
        ld_pick(ld, false) is None,
{
}

/// A soft miss of both environment variables hands the decision, whole, to
/// the filesystem resolver.
pub proof fn lemma_env_miss_consults_filesystem(
    cc: Option<Seq<char>>,
    ld: Option<Seq<char>>,
    ld_sibling_exists: bool,
    dirs: Seq<Seq<char>>,
    clang_present: Seq<bool>,
    gcc_present: Seq<bool>,
)
    requires
        env_pick(cc, ld, ld_sibling_exists) is None,
    ensures
        resolution_pick(cc, ld, ld_sibling_exists, dirs, clang_present, gcc_present)
            == fs_pick(dirs, clang_present, gcc_present),
{
}

/// With no environment hint at all and `clang` present somewhere on the
/// search list, resolution picks LLVM at the first directory that has it —
/// the fixed tie-break toward LLVM — whatever `gcc`'s presence.
pub proof fn lemma_resolution_prefers_llvm(
    ld_sibling_exists: bool,
    dirs: Seq<Seq<char>>,
    clang_present: Seq<bool>,
    gcc_present: Seq<bool>,
)
    requires
        clang_present.contains(true),
    ensures
        clang_present.index_of_first(true) matches Some(i) && resolution_pick(
            None,
            None,
            ld_sibling_exists,
            dirs,
            clang_present,
            gcc_present,
        ) == Some((Family::Llvm, join_path_spec(dirs[i], "clang"@))),
{
    clang_present.index_of_first_ensures(true);
}

/// With no environment hint, no `clang` anywhere, but `gcc` present,
/// resolution picks GNU at the first directory that has it.
pub proof fn lemma_resolution_gcc_fallback(
    ld_sibling_exists: bool,
    dirs: Seq<Seq<char>>,
    clang_present: Seq<bool>,
    gcc_present: Seq<bool>,
)
    requires
        !clang_present.contains(true),
        gcc_present.contains(true),
    ensures
        gcc_present.index_of_first(true) matches Some(i) && resolution_pick(
            None,
            None,
            ld_sibling_exists,
            dirs,
            clang_present,
            gcc_present,
        ) == Some((Family::Gnu, join_path_spec(dirs[i], "gcc"@))),
{
    clang_present.index_of_first_ensures(true);
    gcc_present.index_of_first_ensures(true);
}

/// With no environment hint and neither compiler present anywhere on the
/// list, resolution reports total failure: there is no toolchain to run.
pub proof fn lemma_total_resolution_failure(
    ld_sibling_exists: bool,
    dirs: Seq<Seq<char>>,
    clang_present: Seq<bool>,
    gcc_present: Seq<bool>,
)
    requires
        !clang_present.contains(true),
        !gcc_present.contains(true),
    ensures
        resolution_pick(None, None, ld_sibling_exists, dirs, clang_present, gcc_present)
            is None,
{
    clang_present.index_of_first_ensures(true);
    gcc_present.index_of_first_ensures(true);
}

} // verus!
