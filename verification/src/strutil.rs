//! Pure character-sequence utilities shared by the resolvers: dissecting a
//! `CC`/`LD`-style value into its bare executable name, sibling-path
//! derivation, and path joining.

use vstd::prelude::*;
use vstd::string::*;

verus! {

// ---------------------------------------------------------------------------
// Locating single characters: bridges between a scanning loop and the
// `index_of_first` / `index_of_last` sequence functions.
// ---------------------------------------------------------------------------

/// If `x` occurs at `i` and nowhere earlier, `i` is its first index.
pub proof fn lemma_index_of_first_is<T>(s: Seq<T>, x: T, i: int)
    requires
        0 <= i < s.len(),
        s[i] == x,
        forall|j: int| 0 <= j < i ==> s[j] != x,
    ensures
        s.index_of_first(x) == Some(i),
{
    assert(s.contains(x)) by {
        assert(0 <= i < s.len() && s[i] == x);
    }
    s.index_of_first_ensures(x);
}

/// If `x` occurs nowhere in `s`, there is no first index.
pub proof fn lemma_index_of_first_absent<T>(s: Seq<T>, x: T)
    requires
        forall|j: int| 0 <= j < s.len() ==> s[j] != x,
    ensures
        s.index_of_first(x) is None,
{
    s.index_of_first_ensures(x);
}

/// If `x` occurs at `i` and nowhere later, `i` is its last index.
pub proof fn lemma_index_of_last_is<T>(s: Seq<T>, x: T, i: int)
    requires
        0 <= i < s.len(),
        s[i] == x,
        forall|j: int| i < j < s.len() ==> s[j] != x,
    ensures
        s.index_of_last(x) == Some(i),
{
    assert(s.contains(x)) by {
        assert(0 <= i < s.len() && s[i] == x);
    }
    s.index_of_last_ensures(x);
}

/// If `x` occurs nowhere in `s`, there is no last index.
pub proof fn lemma_index_of_last_absent<T>(s: Seq<T>, x: T)
    requires
        forall|j: int| 0 <= j < s.len() ==> s[j] != x,
    ensures
        s.index_of_last(x) is None,
{
    s.index_of_last_ensures(x);
}

// ---------------------------------------------------------------------------
// The bare executable name of a `CC`/`LD`-style value.
// ---------------------------------------------------------------------------

/// Index just after the last `/` of `s`, or `0` when `s` has none: where the
/// bare executable name starts.
pub open spec fn bare_start(s: Seq<char>) -> int {
    match s.index_of_last('/') {
        Some(i) => i + 1,
        None => 0,
    }
}

/// End of the bare executable name: the first space at or after
/// [`bare_start`], or the end of the string when no space follows.
pub open spec fn bare_end(s: Seq<char>) -> int {
    match s.subrange(bare_start(s), s.len() as int).index_of_first(' ') {
        Some(j) => bare_start(s) + j,
        None => s.len() as int,
    }
}

/// The bare executable name inside a `CC`/`LD`-style value: the component
/// after the last `/`, cut before the first space that follows it.
pub open spec fn bare_name(s: Seq<char>) -> Seq<char> {
    s.subrange(bare_start(s), bare_end(s))
}

/// Everything up to and including the last `/` of `s`; empty when `s` has no
/// `/` at all.
pub open spec fn dir_prefix(s: Seq<char>) -> Seq<char> {
    s.subrange(0, bare_start(s))
}

/// The path of `tool` placed in the directory of the executable that `s`
/// names: the sibling lookup.
pub open spec fn sibling_path(s: Seq<char>, tool: Seq<char>) -> Seq<char> {
    dir_prefix(s) + tool
}

pub open spec fn starts_with(s: Seq<char>, prefix: Seq<char>) -> bool {
    s.len() >= prefix.len() && s.subrange(0, prefix.len() as int) == prefix
}

pub open spec fn ends_with(s: Seq<char>, suffix: Seq<char>) -> bool {
    s.len() >= suffix.len() && s.subrange(s.len() - suffix.len(), s.len() as int)
        == suffix
}

pub open spec fn has_infix(s: Seq<char>, infix: Seq<char>) -> bool {
    exists|k: int|
        0 <= k && k + infix.len() <= s.len() && #[trigger] s.subrange(k, k + infix.len())
            == infix
}

/// Where the bare executable name starts in `s`: just after the last `/`.
pub fn bare_start_of(s: &str) -> (r: usize)
    ensures
        r as int == bare_start(s@),
        r as int <= s@.len(),
{
    let n = s.unicode_len();
    let mut start: usize = 0;
    let mut i: usize = 0;
    while i < n
        invariant
            n == s@.len(),
            0 <= start <= i <= n,
            start > 0 ==> s@[start - 1] == '/',
            forall|j: int| start <= j < i ==> s@[j] != '/',
        decreases n - i,
    {
        if s.get_char(i) == '/' {
            start = i + 1;
        }
        i += 1;
    }
    proof {
        if start > 0 {
            lemma_index_of_last_is(s@, '/', start - 1);
        } else {
            lemma_index_of_last_absent(s@, '/');
        }
    }
    start
}

/// Extract the bare executable name of `s`: the component after the last
/// `/`, cut at the first space that follows it.
pub fn bare_name_of(s: &str) -> (r: String)
    ensures
        r@ == bare_name(s@),
{
    let n = s.unicode_len();
    let start = bare_start_of(s);
    let mut end: usize = n;
    let mut i: usize = start;
    while i < n
        invariant
            n == s@.len(),
            start <= i <= n,
            start <= end <= n,
            end == n ==> forall|j: int| start <= j < i ==> s@[j] != ' ',
            end < n ==> s@[end as int] == ' ' && forall|j: int|
                start <= j < end ==> s@[j] != ' ',
        decreases n - i,
    {
        if end == n && s.get_char(i) == ' ' {
            end = i;
        }
        i += 1;
    }
    proof {
        let tail = s@.subrange(start as int, n as int);
        if end < n {
            assert(tail[end - start] == s@[end as int]);
            assert(forall|j: int| 0 <= j < end - start ==> tail[j] == s@[start + j]);
            lemma_index_of_first_is(tail, ' ', end - start);
        } else {
            assert(forall|j: int| 0 <= j < tail.len() ==> tail[j] == s@[start + j]);
            lemma_index_of_first_absent(tail, ' ');
        }
        assert(bare_end(s@) == end as int);
    }
    String::from_str(s.substring_char(start, end))
}

// ---------------------------------------------------------------------------
// Comparing against fixed names and patterns.
// ---------------------------------------------------------------------------

/// Do the characters of `pat` stand in `s` at offset `k`?
pub fn match_at(s: &str, pat: &str, k: usize) -> (r: bool)
    requires
        k + pat@.len() <= s@.len(),
    ensures
        r == (s@.subrange(k as int, k as int + pat@.len() as int) == pat@),
{
    let n = s.unicode_len();
    let m = pat.unicode_len();
    let mut j: usize = 0;
    while j < m
        invariant
            n == s@.len(),
            m == pat@.len(),
            k + m <= n,
            0 <= j <= m,
            forall|t: int| 0 <= t < j ==> s@[k + t] == pat@[t],
        decreases m - j,
    {
        if s.get_char(k + j) != pat.get_char(j) {
            proof {
                let sub = s@.subrange(k as int, k as int + m as int);
                assert(sub[j as int] == s@[k + j]);
            }
            return false;
        }
        j += 1;
    }
    proof {
        assert(s@.subrange(k as int, k as int + m as int) =~= pat@);
    }
    true
}

/// Character-for-character equality of two string slices.
pub fn str_eq(a: &str, b: &str) -> (r: bool)
    ensures
        r == (a@ == b@),
{
    let na = a.unicode_len();
    let nb = b.unicode_len();
    if na != nb {
        return false;
    }
    let r = match_at(a, b, 0);
    proof {
        assert(a@.subrange(0, a@.len() as int) =~= a@);
    }
    r
}

pub fn starts_with_str(s: &str, prefix: &str) -> (r: bool)
    ensures
        r == starts_with(s@, prefix@),
{
    let n = s.unicode_len();
    let m = prefix.unicode_len();
    if m > n {
        return false;
    }
    match_at(s, prefix, 0)
}

pub fn ends_with_str(s: &str, suffix: &str) -> (r: bool)
    ensures
        r == ends_with(s@, suffix@),
{
    let n = s.unicode_len();
    let m = suffix.unicode_len();
    if m > n {
        return false;
    }
    match_at(s, suffix, n - m)
}

pub fn contains_str(s: &str, infix: &str) -> (r: bool)
    ensures
        r == has_infix(s@, infix@),
{
    let n = s.unicode_len();
    let m = infix.unicode_len();
    if m > n {
        return false;
    }
    if m == 0 {
        proof {
            assert(has_infix(s@, infix@)) by {
                assert(s@.subrange(0, 0 + infix@.len() as int) =~= infix@);
            }
        }
        return true;
    }
    let mut k: usize = 0;
    while k <= n - m
        invariant
            n == s@.len(),
            m == infix@.len(),
            1 <= m <= n,
            0 <= k <= n - m + 1,
            forall|t: int| 0 <= t < k ==> #[trigger] s@.subrange(t, t + m as int) != infix@,
        decreases n - m - k + 1,
    {
        if match_at(s, infix, k) {
            proof {
                assert(has_infix(s@, infix@)) by {
                    assert(s@.subrange(k as int, k as int + m as int) == infix@);
                }
            }
            return true;
        }
        k += 1;
    }
    proof {
        assert(!has_infix(s@, infix@)) by {
            assert(forall|t: int|
                0 <= t && t + m <= n ==> #[trigger] s@.subrange(t, t + m as int) != infix@);
        }
    }
    false
}

// ---------------------------------------------------------------------------
// Collections of strings.
// ---------------------------------------------------------------------------

/// The views of a sequence of strings.
pub open spec fn str_views(v: Seq<String>) -> Seq<Seq<char>> {
    v.map_values(|s: String| s@)
}

/// Does the optional string `r` carry exactly the characters `p` — present
/// exactly when `p` is, equal to it when both are?
pub open spec fn opt_str_matches(r: Option<String>, p: Option<Seq<char>>) -> bool {
    match (r, p) {
        (Some(s), Some(q)) => s@ == q,
        (None, None) => true,
        _ => false,
    }
}

/// Split `s` at every occurrence of `sep`: n separators give n + 1 pieces,
/// empty pieces included.
pub open spec fn split_on(s: Seq<char>, sep: char) -> Seq<Seq<char>>
    decreases s.len() via split_on_decreases
{
    match s.index_of_first(sep) {
        Some(i) => seq![s.subrange(0, i)] + split_on(s.subrange(i + 1, s.len() as int), sep),
        None => seq![s],
    }
}

#[via_fn]
proof fn split_on_decreases(s: Seq<char>, sep: char) {
    s.index_of_first_ensures(sep);
}

/// Split a string at every occurrence of `sep`.
pub fn split_str(s: &str, sep: char) -> (r: Vec<String>)
    ensures
        str_views(r@) == split_on(s@, sep),
{
    let n = s.unicode_len();
    let mut pieces: Vec<String> = Vec::new();
    let mut start: usize = 0;
    let mut i: usize = 0;
    proof {
        assert(s@.subrange(0, n as int) =~= s@);
        assert(str_views(pieces@) + split_on(s@, sep) =~= split_on(s@, sep));
    }
    while i < n
        invariant
            n == s@.len(),
            0 <= start <= i <= n,
            forall|j: int| start <= j < i ==> s@[j] != sep,
            split_on(s@, sep) == str_views(pieces@) + split_on(
                s@.subrange(start as int, n as int),
                sep,
            ),
        decreases n - i,
    {
        if s.get_char(i) == sep {
            let piece = String::from_str(s.substring_char(start, i));
            proof {
                let rem = s@.subrange(start as int, n as int);
                assert(rem[i - start] == s@[i as int]);
                assert(forall|j: int| 0 <= j < i - start ==> rem[j] == s@[start + j]);
                lemma_index_of_first_is(rem, sep, i - start);
                assert(rem.subrange(0, i - start) =~= s@.subrange(start as int, i as int));
                assert(rem.subrange(i - start + 1, rem.len() as int) =~= s@.subrange(
                    i + 1,
                    n as int,
                ));
                assert(str_views(pieces@.push(piece)) =~= str_views(pieces@) + seq![piece@]);
                assert(str_views(pieces@) + split_on(rem, sep) =~= (str_views(pieces@)
                    + seq![piece@]) + split_on(s@.subrange(i + 1, n as int), sep));
            }
            pieces.push(piece);
            start = i + 1;
        }
        i += 1;
    }
    let last = String::from_str(s.substring_char(start, n));
    proof {
        let rem = s@.subrange(start as int, n as int);
        assert(forall|j: int| 0 <= j < rem.len() ==> rem[j] == s@[start + j]);
        lemma_index_of_first_absent(rem, sep);
        assert(str_views(pieces@.push(last)) =~= str_views(pieces@) + seq![rem]);
    }
    pieces.push(last);
    pieces
}

// ---------------------------------------------------------------------------
// Path joining.
// ---------------------------------------------------------------------------

/// `name` appended to directory `dir`, with a `/` inserted unless `dir` is
/// empty or already ends in one.
pub open spec fn join_path_spec(dir: Seq<char>, name: Seq<char>) -> Seq<char> {
    if dir.len() == 0 {
        name
    } else if dir.last() == '/' {
        dir + name
    } else {
        dir + "/"@ + name
    }
}

/// Join a directory and a file name into one path.
pub fn join_path(dir: &str, name: &str) -> (r: String)
    ensures
        r@ == join_path_spec(dir@, name@),
{
    let n = dir.unicode_len();
    if n == 0 {
        String::from_str(name)
    } else if dir.get_char(n - 1) == '/' {
        String::from_str(dir).concat(name)
    } else {
        String::from_str(dir).concat("/").concat(name)
    }
}

} // verus!
