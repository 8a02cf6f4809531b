//! Rules of the file watcher: which changed paths count, which package a
//! changed file belongs to, and how the changed packages are reported.
use vstd::prelude::*;
use crate::text::{contains, contains_str, join, join_chars, str_eq, to_chars, from_chars};

verus! {

/// A change in one package.
#[derive(Debug, Clone)]
pub struct PackageChangeEvent {
    /// The package in which a file changed.
    pub package_name: String,
}

// ---------------------------------------------------------------------------
// Ignored paths and watched extensions
// ---------------------------------------------------------------------------

/// Directories whose changes never count.
pub open spec fn ignored_dirs() -> Seq<Seq<char>> {
    seq![
        ".dart_tool"@,
        "build"@,
        ".symlinks"@,
        ".plugin_symlinks"@,
        "ios/Pods"@,
        ".fvm"@,
        ".idea"@,
        ".vscode"@,
    ]
}

/// File extensions whose changes count.
pub open spec fn watched_extensions() -> Seq<Seq<char>> {
    seq!["dart"@, "yaml"@, "json"@, "arb"@, "g.dart"@]
}

/// Whether a path holds one of the ignored directory names anywhere in its
/// text.
pub open spec fn should_ignore_spec(path: Seq<char>) -> bool {
    exists|i: int| 0 <= i < ignored_dirs().len() && contains(path, #[trigger] ignored_dirs()[i])
}

/// Whether a changed path is a build artifact, tool or IDE file: one that
/// holds `.dart_tool`, `build`, `.symlinks`, `.plugin_symlinks`, `ios/Pods`,
/// `.fvm`, `.idea` or `.vscode` anywhere in its text.
pub fn should_ignore_path(path: &str) -> (r: bool)
    ensures
        r == should_ignore_spec(path@),
{
    let v = to_chars(path);
    let a = contains_str(v.as_slice(), ".dart_tool");
    let b = contains_str(v.as_slice(), "build");
    let c = contains_str(v.as_slice(), ".symlinks");
    let d = contains_str(v.as_slice(), ".plugin_symlinks");
    let e = contains_str(v.as_slice(), "ios/Pods");
    let f = contains_str(v.as_slice(), ".fvm");
    let g = contains_str(v.as_slice(), ".idea");
    let h = contains_str(v.as_slice(), ".vscode");
    proof {
        let dirs = ignored_dirs();
        assert(dirs[0] == ".dart_tool"@);
        assert(dirs[1] == "build"@);
        assert(dirs[2] == ".symlinks"@);
        assert(dirs[3] == ".plugin_symlinks"@);
        assert(dirs[4] == "ios/Pods"@);
        assert(dirs[5] == ".fvm"@);
        assert(dirs[6] == ".idea"@);
        assert(dirs[7] == ".vscode"@);
        if should_ignore_spec(path@) {
            let i = choose|i: int| 0 <= i < dirs.len() && contains(path@, #[trigger] dirs[i]);
            assert(a || b || c || d || e || f || g || h);
        }
    }
    a || b || c || d || e || f || g || h
}

/// Whether an extension is one of the watched ones.
pub fn is_watched_extension(ext: &str) -> (r: bool)
    ensures
        r == watched_extensions().contains(ext@),
{
    let r = str_eq(ext, "dart") || str_eq(ext, "yaml") || str_eq(ext, "json") || str_eq(ext, "arb")
        || str_eq(ext, "g.dart");
    proof {
        let w = watched_extensions();
        assert(w[0] == "dart"@);
        assert(w[1] == "yaml"@);
        assert(w[2] == "json"@);
        assert(w[3] == "arb"@);
        assert(w[4] == "g.dart"@);
        if w.contains(ext@) {
            let i = choose|i: int| 0 <= i < w.len() && w[i] == ext@;
        }
    }
    r
}

/// What `Path::extension` gives for a path: the text after the last dot of
/// its last component, where there is one.
pub uninterp spec fn path_extension_of(p: Seq<char>) -> Option<Seq<char>>;

/// `Path::extension` of a path given as text. The contract names its result
/// (it follows the platform's path rules, and depends on the path alone).
#[verifier::external_body]
fn path_extension(p: &str) -> (r: Option<String>)
    ensures
        match r {
            Some(e) => path_extension_of(p@) == Some(e@),
            None => path_extension_of(p@) is None,
        },
{
    match std::path::Path::new(p).extension() {
        Some(e) => Some(e.to_string_lossy().into_owned()),
        None => None,
    }
}

/// Whether a changed file has a watched extension. The extension is taken
/// by the platform's path rules; the result holds exactly where that
/// extension is watched.
pub fn has_watched_extension(path: &str) -> (r: bool)
    ensures
        r == match path_extension_of(path@) {
            Some(e) => watched_extensions().contains(e),
            None => false,
        },
{
    match path_extension(path) {
        Some(ext) => is_watched_extension(ext.as_str()),
        None => false,
    }
}

// ---------------------------------------------------------------------------
// The owning package
// ---------------------------------------------------------------------------

/// Whether package `j` is the owner among the candidates: it matches, no
/// matching package has a longer path, and no later matching package has a
/// path as long (the last of the longest wins).
pub open spec fn is_owner(lens: Seq<usize>, matches: Seq<bool>, j: int) -> bool {
    &&& 0 <= j < matches.len()
    &&& matches[j]
    &&& forall|k: int| 0 <= k < matches.len() && matches[k] ==> lens[k] <= lens[j]
    &&& forall|k: int| j < k < matches.len() && matches[k] ==> lens[k] < lens[j]
}

/// The byte lengths of the package paths.
pub open spec fn path_lens(paths: Seq<(String, String)>) -> Seq<usize> {
    paths.map_values(|p: (String, String)| vstd::utf8::encode_utf8(p.0@).len() as usize)
}

/// The owner among the packages, given which of them contain the file: the
/// matching package with the longest path (the last of the longest).
pub fn select_owner(package_paths: &[(String, String)], matches: &[bool]) -> (r: Option<String>)
    requires
        matches@.len() == package_paths@.len(),
        package_paths@.len() < usize::MAX,
    ensures
        match r {
            Some(name) => exists|j: int|
                is_owner(path_lens(package_paths@), matches@, j) && name@ == (#[trigger] package_paths@[j]).1@,
            None => forall|k: int| 0 <= k < matches@.len() ==> !matches@[k],
        },
{
    let ghost lens = path_lens(package_paths@);
    let mut best: usize = 0;
    let mut best_len: usize = 0;
    let mut found = false;
    let mut i: usize = 0;
    while i < package_paths.len()
        invariant
            i <= package_paths@.len(),
            matches@.len() == package_paths@.len(),
            lens == path_lens(package_paths@),
            found ==> best < i && matches@[best as int] && best_len == lens[best as int],
            found ==> forall|k: int| 0 <= k < i && matches@[k] ==> lens[k] <= lens[best as int],
            found ==> forall|k: int| best < k < i && matches@[k] ==> lens[k] < lens[best as int],
            !found ==> forall|k: int| 0 <= k < i ==> !matches@[k],
        decreases package_paths@.len() - i,
    {
        if matches[i] {
            let n = package_paths[i].0.as_str().len();
            assert(n == lens[i as int]);
            if !found || n >= best_len {
                best = i;
                best_len = n;
                found = true;
            }
        }
        i += 1;
    }
    if found {
        let name = package_paths[best].1.clone();
        assert(is_owner(lens, matches@, best as int));
        Some(name)
    } else {
        None
    }
}

/// The canonical form of a path on this machine, or the path itself where
/// it has none. Nothing is stated of the result: it depends on the disk.
#[verifier::external_body]
fn canonical_or_same(p: &str) -> (r: String) {
    match std::path::Path::new(p).canonicalize() {
        Ok(c) => c.to_string_lossy().into_owned(),
        Err(_) => p.to_string(),
    }
}

/// What `Path::starts_with` gives: whether `base` is a leading run of whole
/// components of `p`.
pub uninterp spec fn path_has_prefix(p: Seq<char>, base: Seq<char>) -> bool;

/// `Path::starts_with` on paths given as text. The contract names its
/// result (it follows the platform's path rules, and depends on the two
/// paths alone).
#[verifier::external_body]
fn path_starts_with(p: &str, base: &str) -> (r: bool)
    ensures
        r == path_has_prefix(p@, base@),
{
    std::path::Path::new(p).starts_with(base)
}

/// Which of the package directories `paths` contain the file at `c`.
pub open spec fn containing(c: Seq<char>, paths: Seq<(String, String)>) -> Seq<bool> {
    paths.map_values(|p: (String, String)| path_has_prefix(c, p.0@))
}

/// The package that owns a changed file: of the packages whose directory
/// contains the file (after resolving the file's path on the disk), the one
/// with the longest path. What the file's path resolves to depends on the
/// disk; the contract holds for the path it resolved to.
pub fn find_owning_package(file_path: &str, package_paths: &[(String, String)]) -> (r: Option<String>)
    requires
        package_paths@.len() < usize::MAX,
    ensures
        exists|c: Seq<char>|
            match r {
                Some(name) => exists|j: int|
                    is_owner(path_lens(package_paths@), #[trigger] containing(c, package_paths@), j) && name@
                        == package_paths@[j].1@,
                None => forall|k: int| 0 <= k < package_paths@.len() ==> !(#[trigger] containing(c, package_paths@)[k]),
            },
{
    let canonical = canonical_or_same(file_path);
    let mut matches: Vec<bool> = Vec::new();
    let mut i: usize = 0;
    while i < package_paths.len()
        invariant
            i <= package_paths@.len(),
            matches@.len() == i,
            forall|k: int| 0 <= k < i ==> #[trigger] matches@[k] == path_has_prefix(canonical@, package_paths@[k].0@),
        decreases package_paths@.len() - i,
    {
        matches.push(path_starts_with(canonical.as_str(), package_paths[i].0.as_str()));
        i += 1;
    }
    assert(matches@ =~= containing(canonical@, package_paths@));
    let r = select_owner(package_paths, matches.as_slice());
    assert(match r {
        Some(name) => exists|j: int|
            is_owner(path_lens(package_paths@), containing(canonical@, package_paths@), j) && name@
                == package_paths@[j].1@,
        None => forall|k: int| 0 <= k < package_paths@.len() ==> !containing(canonical@, package_paths@)[k],
    });
    r
}

// ---------------------------------------------------------------------------
// Reporting changed packages
// ---------------------------------------------------------------------------

/// `a` comes before `b` in the order of `String`: character by character,
/// a proper prefix first.
pub open spec fn lex_lt(a: Seq<char>, b: Seq<char>) -> bool
    decreases a.len(),
{
    if b.len() == 0 {
        false
    } else if a.len() == 0 {
        true
    } else if a[0] < b[0] {
        true
    } else if a[0] > b[0] {
        false
    } else {
        lex_lt(a.drop_first(), b.drop_first())
    }
}

pub proof fn lemma_lex_irreflexive(a: Seq<char>)
    ensures
        !lex_lt(a, a),
    decreases a.len(),
{
    if a.len() > 0 {
        lemma_lex_irreflexive(a.drop_first());
    }
}

pub proof fn lemma_lex_transitive(a: Seq<char>, b: Seq<char>, c: Seq<char>)
    requires
        lex_lt(a, b),
        lex_lt(b, c),
    ensures
        lex_lt(a, c),
    decreases a.len(),
{
    if a.len() > 0 && b.len() > 0 && c.len() > 0 {
        if a[0] == b[0] && b[0] == c[0] {
            lemma_lex_transitive(a.drop_first(), b.drop_first(), c.drop_first());
        }
    }
}

pub proof fn lemma_lex_total(a: Seq<char>, b: Seq<char>)
    requires
        a != b,
    ensures
        lex_lt(a, b) || lex_lt(b, a),
    decreases a.len(),
{
    if a.len() > 0 && b.len() > 0 && a[0] == b[0] {
        if a.drop_first() == b.drop_first() {
            assert(a =~= seq![a[0]] + a.drop_first());
            assert(b =~= seq![b[0]] + b.drop_first());
        }
        lemma_lex_total(a.drop_first(), b.drop_first());
    } else if a.len() == 0 && b.len() == 0 {
        assert(a =~= b);
    }
}

/// Whether `a` comes strictly before `b`.
pub(crate) fn lex_lt_exec(a: &[char], b: &[char]) -> (r: bool)
    ensures
        r == lex_lt(a@, b@),
{
    let mut i: usize = 0;
    assert(a@.skip(0) =~= a@);
    assert(b@.skip(0) =~= b@);
    while i < a.len() && i < b.len() && a[i] == b[i]
        invariant
            i <= a.len(),
            i <= b.len(),
            lex_lt(a@, b@) == lex_lt(a@.skip(i as int), b@.skip(i as int)),
        decreases a.len() - i,
    {
        assert(a@.skip(i as int).drop_first() =~= a@.skip(i + 1));
        assert(b@.skip(i as int).drop_first() =~= b@.skip(i + 1));
        i += 1;
    }
    if i == b.len() {
        false
    } else if i == a.len() {
        true
    } else {
        a[i] < b[i]
    }
}

/// Strictly increasing: sorted, with nothing twice.
pub open spec fn strictly_sorted(s: Seq<Seq<char>>) -> bool {
    forall|i: int, j: int| 0 <= i < j < s.len() ==> lex_lt(#[trigger] s[i], #[trigger] s[j])
}

/// The names of a set, sorted, each once.
pub open spec fn sorted_names(s: Seq<Seq<char>>, names: Set<Seq<char>>) -> bool {
    strictly_sorted(s) && s.to_set() == names
}

/// Inserts `x` into a strictly sorted list unless it is there already.
pub(crate) fn insert_sorted(out: &mut Vec<Vec<char>>, x: Vec<char>)
    requires
        strictly_sorted(old(out).deep_view()),
    ensures
        strictly_sorted(final(out).deep_view()),
        final(out).deep_view().to_set() == old(out).deep_view().to_set().insert(x@),
{
    let ghost s = out.deep_view();
    proof {
        crate::text::lemma_deep_view_chars(*out);
    }
    let mut p: usize = 0;
    while p < out.len() && lex_lt_exec(out[p].as_slice(), x.as_slice())
        invariant
            p <= out@.len(),
            s == out.deep_view(),
            s.len() == out@.len(),
            forall|m: int| 0 <= m < out@.len() ==> #[trigger] s[m] == out@[m]@,
            forall|m: int| 0 <= m < p ==> lex_lt(#[trigger] s[m], x@),
        decreases out@.len() - p,
    {
        p += 1;
    }
    if p < out.len() && crate::text::chars_eq(out[p].as_slice(), x.as_slice()) {
        assert(s.contains(x@)) by {
            assert(s[p as int] == x@);
        }
        assert(s.to_set().insert(x@) =~= s.to_set());
        return;
    }
    proof {
        if p < s.len() {
            assert(!lex_lt(s[p as int], x@));
            assert(s[p as int] != x@);
            lemma_lex_total(s[p as int], x@);
            assert(lex_lt(x@, s[p as int]));
            assert forall|m: int| p <= m < s.len() implies lex_lt(x@, #[trigger] s[m]) by {
                if m > p {
                    lemma_lex_transitive(x@, s[p as int], s[m]);
                }
            }
        }
    }
    let ghost xv = x@;
    out.insert(p, x);
    let ghost t = s.insert(p as int, xv);
    assert(out.deep_view() =~= t) by {
        assert forall|m: int| 0 <= m < out@.len() implies #[trigger] out.deep_view()[m] == t[m] by {
            assert(out.deep_view()[m] == out@[m]@);
        }
    }
    assert forall|i: int, j: int| 0 <= i < j < t.len() implies lex_lt(#[trigger] t[i], #[trigger] t[j]) by {
        if i < p && j < p {
        } else if i < p && j == p {
        } else if i < p && j > p {
            assert(t[i] == s[i]);
            assert(t[j] == s[j - 1]);
        } else if i == p {
            assert(t[j] == s[j - 1]);
        } else {
            assert(t[i] == s[i - 1]);
            assert(t[j] == s[j - 1]);
        }
    }
    assert(t.to_set() =~= s.to_set().insert(xv)) by {
        assert forall|y: Seq<char>| t.to_set().contains(y) <==> s.to_set().insert(xv).contains(y) by {
            if t.contains(y) {
                let k = choose|k: int| 0 <= k < t.len() && t[k] == y;
                if k < p {
                    assert(s[k] == y);
                } else if k > p {
                    assert(s[k - 1] == y);
                }
            }
            if s.contains(y) {
                let k = choose|k: int| 0 <= k < s.len() && s[k] == y;
                if k < p {
                    assert(t[k] == y);
                } else {
                    assert(t[k + 1] == y);
                }
            }
            if y == xv {
                assert(t[p as int] == y);
            }
        }
    }
}

/// The names, sorted, each once, joined by `", "`.
pub fn format_changed_packages(names: &Vec<String>) -> (r: String)
    ensures
        exists|s: Seq<Seq<char>>|
            #[trigger] sorted_names(s, crate::text::views(names@).to_set()) && r@ == join(s, ", "@),
{
    let mut sorted: Vec<Vec<char>> = Vec::new();
    let mut i: usize = 0;
    assert(sorted.deep_view().to_set() =~= crate::text::views(names@).take(0).to_set());
    while i < names.len()
        invariant
            i <= names@.len(),
            strictly_sorted(sorted.deep_view()),
            sorted.deep_view().to_set() == crate::text::views(names@).take(i as int).to_set(),
        decreases names@.len() - i,
    {
        let x = to_chars(names[i].as_str());
        insert_sorted(&mut sorted, x);
        assert(crate::text::views(names@).take(i + 1) =~= crate::text::views(names@).take(
            i as int,
        ).push(names@[i as int]@));
        proof {
            crate::text::views(names@).take(i as int).lemma_push_to_set_commute(names@[i as int]@);
        }
        i += 1;
    }
    assert(crate::text::views(names@).take(names@.len() as int) =~= crate::text::views(names@));
    let sep = to_chars(", ");
    let j = join_chars(&sorted, sep.as_slice());
    assert(sorted_names(sorted.deep_view(), crate::text::views(names@).to_set()));
    from_chars(j.as_slice())
}

} // verus!
