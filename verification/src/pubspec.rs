//! Edits to the text of a `pubspec.yaml`: its `version:` line, and the
//! version constraint of a dependency.
use vstd::prelude::*;
use crate::text::{
    append_chars, append_str, from_chars, is_ws, is_ws_char, lemma_skip_word_bounds, lemma_skip_ws_bounds,
    skip_word, skip_word_exec, skip_ws, skip_ws_exec, slice_chars, to_chars,
};
use crate::version::{version_text, zero_version};
use crate::release::loose_parse;

use crate::text::owned;

verus! {

/// Whether a line starts at `p`.
pub open spec fn line_start(s: Seq<char>, p: int) -> bool {
    p == 0 || (0 < p <= s.len() && s[p - 1] == '\n')
}

// ---------------------------------------------------------------------------
// The version line
// ---------------------------------------------------------------------------

/// Whether a `version:` field starts at `p`: at a line start, the key, then
/// (after any whitespace) a value.
pub open spec fn version_field_at(s: Seq<char>, p: int) -> bool {
    &&& line_start(s, p)
    &&& p + 8 <= s.len()
    &&& s.subrange(p, p + 8) == "version:"@
    &&& skip_ws(s, p + 8) < s.len()
}

/// The first position at or after `i` where a `version:` field starts (the
/// length plus one where none does).
pub open spec fn first_version_field(s: Seq<char>, i: int) -> int
    decreases s.len() + 1 - i,
{
    if i < 0 || i > s.len() {
        s.len() + 1int
    } else if version_field_at(s, i) {
        i
    } else {
        first_version_field(s, i + 1)
    }
}

/// The text with its first `version:` field set to `version`: the key,
/// the whitespace after it and the value's first run of non-whitespace
/// become `version: <version>`. Without such a field the text stays.
pub open spec fn with_version_spec(s: Seq<char>, version: Seq<char>) -> Seq<char> {
    let p = first_version_field(s, 0);
    if p <= s.len() {
        s.take(p) + "version: "@ + version + s.skip(skip_word(s, skip_ws(s, p + 8)))
    } else {
        s
    }
}

fn version_field_at_exec(v: &[char], p: usize) -> (r: bool)
    requires
        p <= v@.len(),
    ensures
        r == version_field_at(v@, p as int),
{
    if !(p == 0 || v[p - 1] == '\n') {
        return false;
    }
    if v.len() < 8 || p > v.len() - 8 {
        return false;
    }
    let key = to_chars("version:");
    proof {
        reveal_strlit("version:");
    }
    let mut k: usize = 0;
    while k < 8
        invariant
            k <= 8,
            p + 8 <= v@.len(),
            v@.len() == v.len(),
            key@ == "version:"@,
            key@.len() == 8,
            forall|m: int| 0 <= m < k ==> v@[p + m] == key@[m],
        decreases 8 - k,
    {
        if v[p + k] != key[k] {
            assert(v@.subrange(p as int, p + 8)[k as int] != "version:"@[k as int]);
            return false;
        }
        k += 1;
    }
    assert(v@.subrange(p as int, p + 8) =~= "version:"@);
    let q = skip_ws_exec(v, p + 8);
    q < v.len()
}

/// The text of a `pubspec.yaml` with its version set.
pub fn with_version(content: &str, version: &str) -> (r: String)
    ensures
        r@ == with_version_spec(content@, version@),
{
    let v = to_chars(content);
    let mut p: usize = 0;
    while p < v.len()
        invariant
            p <= v@.len(),
            v@ == content@,
            first_version_field(v@, 0) == first_version_field(v@, p as int),
        decreases v@.len() + 1 - p,
    {
        if version_field_at_exec(v.as_slice(), p) {
            let q = skip_ws_exec(v.as_slice(), p + 8);
            let e = skip_word_exec(v.as_slice(), q);
            let mut out = slice_chars(v.as_slice(), 0, p);
            append_str(&mut out, "version: ");
            append_str(&mut out, version);
            let rest = slice_chars(v.as_slice(), e, v.len());
            append_chars(&mut out, rest.as_slice());
            assert(rest@ =~= v@.skip(e as int));
            assert(out@ =~= v@.take(p as int) + "version: "@ + version@ + v@.skip(e as int));
            return from_chars(out.as_slice());
        }
        p += 1;
    }
    assert(!version_field_at(v@, p as int));
    assert(first_version_field(v@, p + 1) == v@.len() + 1);
    owned(content)
}

proof fn lemma_skip_ws_at_most(s: Seq<char>, i: int, k: int)
    requires
        0 <= i <= k < s.len(),
        !is_ws(s[k]),
    ensures
        skip_ws(s, i) <= k,
    decreases k - i,
{
    if i < k && is_ws(s[i]) {
        lemma_skip_ws_at_most(s, i + 1, k);
    }
}

proof fn lemma_skip_word_to(s: Seq<char>, i: int, j: int)
    requires
        0 <= i <= j <= s.len(),
        forall|k: int| i <= k < j ==> !is_ws(#[trigger] s[k]),
        j == s.len() || is_ws(s[j]),
    ensures
        skip_word(s, i) == j,
    decreases j - i,
{
    if i < j {
        lemma_skip_word_to(s, i + 1, j);
    }
}

proof fn lemma_first_field_facts(s: Seq<char>, i: int)
    requires
        0 <= i,
    ensures
        forall|k: int| i <= k < first_version_field(s, i) && k <= s.len() ==> !#[trigger] version_field_at(s, k),
        first_version_field(s, i) <= s.len() ==> version_field_at(s, first_version_field(s, i)),
        i <= s.len() + 1 ==> first_version_field(s, i) >= i,
    decreases s.len() + 1 - i,
{
    if i <= s.len() && !version_field_at(s, i) {
        lemma_first_field_facts(s, i + 1);
    }
}

proof fn lemma_first_field_is(s: Seq<char>, i: int, p: int)
    requires
        0 <= i <= p <= s.len(),
        forall|k: int| i <= k < p ==> !#[trigger] version_field_at(s, k),
        version_field_at(s, p),
    ensures
        first_version_field(s, i) == p,
    decreases p - i,
{
    if i < p {
        lemma_first_field_is(s, i + 1, p);
    }
}

/// Setting the version twice comes to setting it once: the second value
/// replaces the first, provided the first is a non-empty run of
/// non-whitespace characters (as versions are).
pub proof fn lemma_with_version_last_wins(s: Seq<char>, v1: Seq<char>, v2: Seq<char>)
    requires
        v1.len() > 0,
        forall|k: int| 0 <= k < v1.len() ==> !is_ws(#[trigger] v1[k]),
    ensures
        with_version_spec(with_version_spec(s, v1), v2) == with_version_spec(s, v2),
{
    let p = first_version_field(s, 0);
    lemma_first_field_facts(s, 0);
    if p <= s.len() {
        reveal_strlit("version: ");
        reveal_strlit("version:");
        let key = "version: "@;
        assert(key.len() == 9);
        let q = skip_ws(s, p + 8);
        lemma_skip_ws_bounds(s, p + 8);
        let e = skip_word(s, q);
        lemma_skip_word_bounds(s, q);
        let t = s.take(p) + key + v1 + s.skip(e);
        assert(t == with_version_spec(s, v1));
        let n = p + 9 + v1.len();
        assert(t.len() == n + s.len() - e);
        assert forall|k: int| 0 <= k < p implies #[trigger] t[k] == s[k] by {}
        assert forall|k: int| 0 <= k < 8 implies #[trigger] t[p + k] == s[p + k] by {
            assert(t[p + k] == key[k]);
            assert(s.subrange(p, p + 8)[k] == s[p + k]);
        }
        assert(t[p + 8] == ' ');
        assert forall|k: int| 0 <= k < v1.len() implies #[trigger] t[p + 9 + k] == v1[k] by {}
        assert forall|k: int| n <= k < t.len() implies #[trigger] t[k] == s[e + k - n] by {}
        // No field before p in the new text.
        assert forall|i: int| 0 <= i < p implies !#[trigger] version_field_at(t, i) by {
            assert(!version_field_at(s, i));
            if version_field_at(t, i) {
                assert(line_start(s, i)) by {
                    if i > 0 {
                        assert(t[i - 1] == s[i - 1]);
                    }
                }
                assert(s.subrange(i, i + 8) =~= t.subrange(i, i + 8)) by {
                    assert forall|m: int| 0 <= m < 8 implies #[trigger] s.subrange(i, i + 8)[m] == t.subrange(i, i + 8)[m] by {
                        if i + m < p {
                            assert(t[i + m] == s[i + m]);
                        } else {
                            assert(t[p + (i + m - p)] == s[p + (i + m - p)]);
                        }
                    }
                }
                lemma_skip_ws_at_most(s, i + 8, q);
            }
        }
        // A field at p in the new text, whose value is v1.
        assert(skip_ws(t, p + 8) == p + 9) by {
            assert(is_ws(t[p + 8]));
            assert(!is_ws(t[p + 9])) by {
                assert(t[p + 9 + 0] == v1[0]);
            }
            assert(p + 9 < t.len());
            assert(skip_ws(t, p + 9) == p + 9);
            assert(skip_ws(t, p + 8) == skip_ws(t, p + 9));
        }
        assert(version_field_at(t, p)) by {
            if p > 0 {
                assert(t[p - 1] == s[p - 1]);
            }
            assert(t.subrange(p, p + 8) =~= "version:"@) by {
                assert forall|m: int| 0 <= m < 8 implies #[trigger] t.subrange(p, p + 8)[m] == "version:"@[m] by {
                    assert(t[p + m] == s[p + m]);
                    assert(s.subrange(p, p + 8)[m] == s[p + m]);
                }
            }
        }
        lemma_first_field_is(t, 0, p);
        assert(skip_word(t, p + 9) == n) by {
            assert forall|k: int| p + 9 <= k < n implies !is_ws(#[trigger] t[k]) by {
                assert(t[p + 9 + (k - p - 9)] == v1[k - p - 9]);
            }
            if n < t.len() {
                assert(t[n] == s[e + n - n]);
            }
            lemma_skip_word_to(t, p + 9, n);
        }
        assert(t.take(p) =~= s.take(p));
        assert(t.skip(n) =~= s.skip(e));
    }
}

// ---------------------------------------------------------------------------
// Dependency constraints
// ---------------------------------------------------------------------------

/// A character that can start a version constraint: `<`, `>`, `=`, `^`,
/// `~` or an ASCII digit.
pub open spec fn constraint_start(c: char) -> bool {
    c == '<' || c == '>' || c == '=' || c == '^' || c == '~' || ('0' <= c && c <= '9')
}

pub open spec fn is_quote(c: char) -> bool {
    c == '"' || c == '\''
}

/// The first position at or after `i` that holds `"` or a newline (or the
/// length).
pub open spec fn value_stop(s: Seq<char>, i: int) -> int
    decreases s.len() - i,
{
    if i < 0 || i >= s.len() {
        s.len() as int
    } else if s[i] == '"' || s[i] == '\n' {
        i
    } else {
        value_stop(s, i + 1)
    }
}

/// Where a constraint value that starts its body at `i` ends: at a `"` or a
/// newline, with a closing `"` taken in.
pub open spec fn value_end(s: Seq<char>, i: int) -> int {
    let e = value_stop(s, i);
    if e < s.len() && s[e] == '"' {
        e + 1
    } else {
        e
    }
}

/// Where the constraint value at `q` ends: an optional quote, a character
/// that starts a constraint, and the rest of the value; `None` where no
/// constraint is there.
pub open spec fn value_at(s: Seq<char>, q: int) -> Option<int> {
    if 0 <= q && q + 1 < s.len() && is_quote(s[q]) && constraint_start(s[q + 1]) {
        Some(value_end(s, q + 2))
    } else if 0 <= q < s.len() && constraint_start(s[q]) {
        Some(value_end(s, q + 1))
    } else {
        None
    }
}

/// The match where the indentation ends at `w`: the key `dep`, a colon,
/// whitespace, and a constraint value. The positions where the value starts
/// and ends.
pub open spec fn key_match(s: Seq<char>, dep: Seq<char>, w: int) -> Option<(int, int)> {
    if 0 <= w && w + dep.len() + 1 <= s.len() && s.subrange(w, w + dep.len()) == dep && s[w + dep.len()] == ':' {
        let q = skip_ws(s, w + dep.len() + 1);
        match value_at(s, q) {
            Some(e) => Some((q, e)),
            None => None,
        }
    } else {
        None
    }
}

/// The match with the longest indentation, down from `w` to one past `p`.
pub open spec fn indented_match(s: Seq<char>, dep: Seq<char>, p: int, w: int) -> Option<(int, int)>
    decreases w - p,
{
    if w <= p {
        None
    } else {
        match key_match(s, dep, w) {
            Some(r) => Some(r),
            None => indented_match(s, dep, p, w - 1),
        }
    }
}

/// The match of an indented `dep: <constraint>` entry whose line starts at
/// `p`.
pub open spec fn entry_at(s: Seq<char>, dep: Seq<char>, p: int) -> Option<(int, int)> {
    if line_start(s, p) && 0 <= p < s.len() && is_ws(s[p]) {
        indented_match(s, dep, p, skip_ws(s, p))
    } else {
        None
    }
}

/// The first entry at or after `p`.
pub open spec fn first_entry(s: Seq<char>, dep: Seq<char>, p: int) -> Option<(int, int)>
    decreases s.len() + 1 - p,
{
    if p < 0 || p > s.len() {
        None
    } else {
        match entry_at(s, dep, p) {
            Some(r) => Some(r),
            None => first_entry(s, dep, p + 1),
        }
    }
}

/// The text with the first indented `dep:` entry whose value is a version
/// constraint (quoted or not) given `constraint` in place of that value;
/// `None` where there is no such entry or nothing changes. Entries whose
/// value is a map (path, git or SDK dependencies) are left alone.
pub open spec fn with_constraint_spec(s: Seq<char>, dep: Seq<char>, constraint: Seq<char>) -> Option<Seq<char>> {
    match first_entry(s, dep, 0) {
        Some((q, e)) => {
            let t = s.take(q) + constraint + s.skip(e);
            if t == s {
                None
            } else {
                Some(t)
            }
        },
        None => None,
    }
}

/// The caret constraint for a new version: `^` and the version read as
/// semver reads it (or without its `+` suffix), `^0.0.0` where it cannot be
/// read.
pub open spec fn caret_spec(version: Seq<char>) -> Seq<char> {
    "^"@ + version_text(
        match loose_parse(version) {
            Some(t) => t,
            None => zero_version(),
        },
    )
}

proof fn lemma_value_stop_bounds(s: Seq<char>, i: int)
    requires
        0 <= i <= s.len(),
    ensures
        i <= value_stop(s, i) <= s.len(),
    decreases s.len() - i,
{
    if i < s.len() && !(s[i] == '"' || s[i] == '\n') {
        lemma_value_stop_bounds(s, i + 1);
    }
}

fn value_end_exec(v: &[char], i: usize) -> (r: usize)
    requires
        i <= v@.len(),
    ensures
        r == value_end(v@, i as int),
        r <= v@.len(),
{
    let mut e = i;
    while e < v.len() && !(v[e] == '"' || v[e] == '\n')
        invariant
            i <= e <= v@.len(),
            value_stop(v@, i as int) == value_stop(v@, e as int),
        decreases v@.len() - e,
    {
        e += 1;
    }
    if e < v.len() && v[e] == '"' {
        e + 1
    } else {
        e
    }
}

fn is_quote_exec(c: char) -> (r: bool)
    ensures
        r == is_quote(c),
{
    c == '"' || c == '\''
}

fn constraint_start_exec(c: char) -> (r: bool)
    ensures
        r == constraint_start(c),
{
    c == '<' || c == '>' || c == '=' || c == '^' || c == '~' || ('0' <= c && c <= '9')
}

fn value_at_exec(v: &[char], q: usize) -> (r: Option<usize>)
    requires
        q <= v@.len(),
    ensures
        match r {
            Some(e) => value_at(v@, q as int) == Some(e as int) && e <= v@.len(),
            None => value_at(v@, q as int) is None,
        },
{
    if q < v.len() && q + 1 < v.len() && is_quote_exec(v[q]) && constraint_start_exec(v[q + 1]) {
        Some(value_end_exec(v, q + 2))
    } else if q < v.len() && constraint_start_exec(v[q]) {
        Some(value_end_exec(v, q + 1))
    } else {
        None
    }
}

fn key_match_exec(v: &[char], dep: &[char], w: usize) -> (r: Option<(usize, usize)>)
    requires
        w <= v@.len(),
    ensures
        match r {
            Some((q, e)) => key_match(v@, dep@, w as int) == Some((q as int, e as int)) && q <= e <= v@.len(),
            None => key_match(v@, dep@, w as int) is None,
        },
{
    if dep.len() >= v.len() - w {
        return None;
    }
    let mut k: usize = 0;
    while k < dep.len()
        invariant
            k <= dep@.len(),
            w + dep@.len() < v@.len(),
            v@.len() == v.len(),
            forall|m: int| 0 <= m < k ==> v@[w + m] == dep@[m],
        decreases dep@.len() - k,
    {
        if v[w + k] != dep[k] {
            assert(v@.subrange(w as int, w + dep@.len())[k as int] != dep@[k as int]);
            return None;
        }
        k += 1;
    }
    assert(v@.subrange(w as int, w + dep@.len()) =~= dep@);
    if v[w + dep.len()] != ':' {
        return None;
    }
    let q = skip_ws_exec(v, w + dep.len() + 1);
    match value_at_exec(v, q) {
        Some(e) => {
            proof {
                lemma_value_stop_bounds(v@, if q + 2 <= v@.len() { q + 2 } else { q + 1 });
            }
            Some((q, e))
        },
        None => None,
    }
}

fn entry_at_exec(v: &[char], dep: &[char], p: usize) -> (r: Option<(usize, usize)>)
    requires
        p <= v@.len(),
    ensures
        match r {
            Some((q, e)) => entry_at(v@, dep@, p as int) == Some((q as int, e as int)) && q <= e <= v@.len(),
            None => entry_at(v@, dep@, p as int) is None,
        },
{
    if !(p == 0 || v[p - 1] == '\n') || p >= v.len() || !is_ws_char(v[p]) {
        return None;
    }
    let mut w = skip_ws_exec(v, p);
    while w > p
        invariant
            p < w <= v@.len() || w == p,
            p < v@.len(),
            line_start(v@, p as int),
            is_ws(v@[p as int]),
            indented_match(v@, dep@, p as int, skip_ws(v@, p as int)) == indented_match(v@, dep@, p as int, w as int),
        decreases w - p,
    {
        match key_match_exec(v, dep, w) {
            Some(r) => return Some(r),
            None => {},
        }
        w -= 1;
    }
    None
}

fn first_entry_exec(v: &[char], dep: &[char]) -> (r: Option<(usize, usize)>)
    ensures
        match r {
            Some((q, e)) => first_entry(v@, dep@, 0) == Some((q as int, e as int)) && q <= e <= v@.len(),
            None => first_entry(v@, dep@, 0) is None,
        },
{
    let mut p: usize = 0;
    while p < v.len()
        invariant
            p <= v@.len(),
            first_entry(v@, dep@, 0) == first_entry(v@, dep@, p as int),
        decreases v@.len() - p,
    {
        match entry_at_exec(v, dep, p) {
            Some(r) => return Some(r),
            None => {},
        }
        p += 1;
    }
    assert(entry_at(v@, dep@, p as int) is None);
    assert(first_entry(v@, dep@, p + 1) is None);
    None
}

/// The caret constraint for a new version.
pub fn caret_constraint(version: &str) -> (r: String)
    ensures
        r@ == caret_spec(version@),
{
    let v = match crate::release::parse_loose(version) {
        Some(v) => v,
        None => crate::version::SemVer { major: 0, minor: 0, patch: 0, pre: String::new(), build: String::new() },
    };
    let t = v.to_text();
    let mut out: Vec<char> = Vec::new();
    append_str(&mut out, "^");
    append_str(&mut out, t.as_str());
    from_chars(out.as_slice())
}

/// The text of a dependent's `pubspec.yaml` with its constraint on `dep`
/// set to the caret constraint of `new_version`; `None` where there is no
/// such constraint to change.
pub fn with_dependency_constraint(content: &str, dep: &str, new_version: &str) -> (r: Option<String>)
    ensures
        match r {
            Some(t) => with_constraint_spec(content@, dep@, caret_spec(new_version@)) == Some(t@),
            None => with_constraint_spec(content@, dep@, caret_spec(new_version@)) is None,
        },
{
    let v = to_chars(content);
    let d = to_chars(dep);
    let c = caret_constraint(new_version);
    match first_entry_exec(v.as_slice(), d.as_slice()) {
        Some((q, e)) => {
            let mut out = slice_chars(v.as_slice(), 0, q);
            append_str(&mut out, c.as_str());
            let rest = slice_chars(v.as_slice(), e, v.len());
            append_chars(&mut out, rest.as_slice());
            assert(out@ =~= v@.take(q as int) + c@ + v@.skip(e as int));
            if crate::text::chars_eq(out.as_slice(), v.as_slice()) {
                None
            } else {
                Some(from_chars(out.as_slice()))
            }
        },
        None => None,
    }
}

// ---------------------------------------------------------------------------
// Bumping a package's version
// ---------------------------------------------------------------------------

/// The new version text and the new `pubspec.yaml` text for a bump of a
/// package whose version is `current` (`0.0.0` where it has none).
pub fn bump_pubspec(content: &str, current: Option<&str>, bump: &str) -> (r: Result<(String, String), crate::version::VersionError>)
    ensures
        ({
            let cur = match current {
                Some(c) => c@,
                None => "0.0.0"@,
            };
            match r {
                Ok((v, t)) => crate::version::next_version_string_spec(cur, bump@) == Ok::<Seq<char>, crate::version::VersionErrorView>(v@)
                    && t@ == with_version_spec(content@, v@),
                Err(e) => crate::version::next_version_string_spec(cur, bump@) == Err::<Seq<char>, crate::version::VersionErrorView>(e@),
            }
        }),
{
    let cur = match current {
        Some(c) => c,
        None => "0.0.0",
    };
    match crate::version::next_version_string(cur, bump) {
        Ok(v) => {
            let t = with_version(content, v.as_str());
            Ok((v, t))
        },
        Err(e) => Err(e),
    }
}

} // verus!
