//! Preparing a script's command for the shell: `&&` chains split into
//! commands with `melos` pointing to this tool, and environment variables
//! substituted.
use vstd::prelude::*;
use crate::order::{longest_first, sorted_longest_first};
use crate::text::{
    append_chars, append_str, from_chars, occurs_at, occurs_at_exec, replace_all, replace_chars,
    starts_with, to_chars, trim, trim_chars,
};

verus! {

/// A character of a word: an ASCII letter or digit, or `_`.
pub open spec fn is_word(c: char) -> bool {
    ('a' <= c && c <= 'z') || ('A' <= c && c <= 'Z') || ('0' <= c && c <= '9') || c == '_'
}

fn is_word_exec(c: char) -> (r: bool)
    ensures
        r == is_word(c),
{
    ('a' <= c && c <= 'z') || ('A' <= c && c <= 'Z') || ('0' <= c && c <= '9') || c == '_'
}

// ---------------------------------------------------------------------------
// Splitting
// ---------------------------------------------------------------------------

/// The first occurrence of `p` at or after `i` (the length where there is
/// none).
pub open spec fn next_occurrence(s: Seq<char>, p: Seq<char>, i: int) -> int
    decreases s.len() - i,
{
    if i < 0 || i >= s.len() {
        s.len() as int
    } else if occurs_at(s, p, i) {
        i
    } else {
        next_occurrence(s, p, i + 1)
    }
}

pub proof fn lemma_next_occurrence_bounds(s: Seq<char>, p: Seq<char>, i: int)
    requires
        0 <= i <= s.len(),
    ensures
        i <= next_occurrence(s, p, i) <= s.len(),
        next_occurrence(s, p, i) < s.len() ==> occurs_at(s, p, next_occurrence(s, p, i)),
    decreases s.len() - i,
{
    if i < s.len() && !occurs_at(s, p, i) {
        lemma_next_occurrence_bounds(s, p, i + 1);
    }
}

/// `s[i..]` split at the occurrences of a non-empty `p` (as `str::split`).
pub open spec fn split_from(s: Seq<char>, p: Seq<char>, i: int) -> Seq<Seq<char>>
    decreases s.len() - i,
{
    if p.len() == 0 || i < 0 || i > s.len() {
        seq![]
    } else {
        let j = next_occurrence(s, p, i);
        if j >= s.len() {
            seq![s.subrange(i, s.len() as int)]
        } else {
            proof {
                lemma_next_occurrence_bounds(s, p, i);
            }
            seq![s.subrange(i, j)] + split_from(s, p, j + p.len())
        }
    }
}

// ---------------------------------------------------------------------------
// The `melos` word
// ---------------------------------------------------------------------------

/// Whether the word `melos` stands at `i`: not inside a longer word.
pub open spec fn melos_at(s: Seq<char>, i: int) -> bool {
    &&& 0 <= i && i + 5 <= s.len()
    &&& occurs_at(s, "melos"@, i)
    &&& (i == 0 || !is_word(s[i - 1]))
    &&& (i + 5 == s.len() || !is_word(s[i + 5]))
}

/// `s` from `i` on with each word `melos` made `melos-rs`, except where
/// `-rs` already follows it.
pub open spec fn retarget_from(s: Seq<char>, i: int) -> Seq<char>
    decreases s.len() - i,
{
    if i < 0 || i >= s.len() {
        seq![]
    } else if melos_at(s, i) {
        (if starts_with(s.skip(i + 5), "-rs"@) {
            "melos"@
        } else {
            "melos-rs"@
        }) + retarget_from(s, i + 5)
    } else {
        seq![s[i]] + retarget_from(s, i + 1)
    }
}

/// The commands of a script line: the trimmed line split at `&&`, each
/// part trimmed and pointed at this tool.
pub open spec fn expand_spec(command: Seq<char>) -> Seq<Seq<char>> {
    split_from(trim(command), "&&"@, 0).map_values(|part: Seq<char>| retarget_from(trim(part), 0))
}

fn melos_at_exec(v: &[char], i: usize) -> (r: bool)
    requires
        i < v@.len(),
    ensures
        r == melos_at(v@, i as int),
{
    let m = to_chars("melos");
    proof {
        reveal_strlit("melos");
    }
    if v.len() < 5 || i > v.len() - 5 || !occurs_at_exec(v, m.as_slice(), i) {
        return false;
    }
    (i == 0 || !is_word_exec(v[i - 1])) && (i + 5 == v.len() || !is_word_exec(v[i + 5]))
}

/// Points each word `melos` of a command at this tool.
fn retarget(v: &[char]) -> (r: Vec<char>)
    ensures
        r@ == retarget_from(v@, 0),
{
    let mut out: Vec<char> = Vec::new();
    let mut i: usize = 0;
    assert(out@ + retarget_from(v@, 0) =~= retarget_from(v@, 0));
    while i < v.len()
        invariant
            i <= v@.len(),
            out@ + retarget_from(v@, i as int) == retarget_from(v@, 0),
        decreases v@.len() - i,
    {
        let ghost before = out@;
        if melos_at_exec(v, i) {
            let rest = crate::text::slice_chars(v, i + 5, v.len());
            assert(rest@ =~= v@.skip(i + 5));
            let keep = crate::text::starts_with_str(rest.as_slice(), "-rs");
            if keep {
                append_str(&mut out, "melos");
            } else {
                append_str(&mut out, "melos-rs");
            }
            i += 5;
            assert(out@ + retarget_from(v@, i as int) =~= before + retarget_from(v@, i - 5));
        } else {
            out.push(v[i]);
            i += 1;
            assert(out@ + retarget_from(v@, i as int) =~= before + retarget_from(v@, i - 1));
        }
    }
    assert(out@ + retarget_from(v@, i as int) =~= out@);
    out
}

/// The commands of a script line: split at `&&`, each trimmed and with
/// `melos` pointed at this tool (`melos-rs` stays as it is).
pub fn expand_command(command: &str) -> (r: Vec<String>)
    ensures
        r@.map_values(|s: String| s@) == expand_spec(command@),
{
    let t = trim_chars(to_chars(command).as_slice());
    let sep = to_chars("&&");
    proof {
        reveal_strlit("&&");
    }
    let ghost parts = split_from(t@, sep@, 0);
    let mut out: Vec<String> = Vec::new();
    let mut start: usize = 0;
    let ghost mut done: Seq<Seq<char>> = seq![];
    loop
        invariant_except_break
            parts == done + split_from(t@, sep@, start as int),
        invariant
            start <= t@.len(),
            sep@ == "&&"@,
            sep@.len() == 2,
            parts == split_from(t@, sep@, 0),
            out@.map_values(|s: String| s@) == done.map_values(|part: Seq<char>| retarget_from(trim(part), 0)),
        ensures
            parts == done,
        decreases t@.len() - start,
    {
        let mut j = start;
        while j < t.len() && !occurs_at_exec(t.as_slice(), sep.as_slice(), j)
            invariant
                start <= j <= t@.len(),
                next_occurrence(t@, sep@, start as int) == next_occurrence(t@, sep@, j as int),
            decreases t@.len() - j,
        {
            j += 1;
        }
        proof {
            lemma_next_occurrence_bounds(t@, sep@, start as int);
        }
        let part = crate::text::slice_chars(t.as_slice(), start, j);
        let trimmed = trim_chars(part.as_slice());
        let r = retarget(trimmed.as_slice());
        let ghost before = out@.map_values(|s: String| s@);
        out.push(from_chars(r.as_slice()));
        proof {
            assert(out@.map_values(|s: String| s@) =~= before.push(retarget_from(trim(t@.subrange(start as int, j as int)), 0)));
            let rest = split_from(t@, sep@, start as int);
            assert(rest[0] == t@.subrange(start as int, j as int));
            done = done.push(t@.subrange(start as int, j as int));
            assert(done.map_values(|part: Seq<char>| retarget_from(trim(part), 0)) =~= before.push(
                retarget_from(trim(t@.subrange(start as int, j as int)), 0),
            ));
        }
        if j >= t.len() {
            proof {
                assert(split_from(t@, sep@, start as int) =~= seq![t@.subrange(start as int, j as int)]);
                assert(parts =~= done);
            }
            break;
        }
        proof {
            assert(split_from(t@, sep@, start as int) =~= seq![t@.subrange(start as int, j as int)] + split_from(
                t@,
                sep@,
                j + 2,
            ));
            assert(parts =~= done + split_from(t@, sep@, j + 2));
        }
        start = j + 2;
    }
    assert(parts.map_values(|part: Seq<char>| retarget_from(trim(part), 0)) =~= expand_spec(command@));
    out
}

// ---------------------------------------------------------------------------
// Environment variables
// ---------------------------------------------------------------------------

/// `s` with each occurrence of `p` (left to right, without overlap) made
/// `r`, except where a word character follows it.
pub open spec fn replace_var(s: Seq<char>, p: Seq<char>, r: Seq<char>) -> Seq<char>
    decreases s.len(),
{
    if s.len() == 0 || p.len() == 0 {
        s
    } else if starts_with(s, p) {
        (if p.len() < s.len() && is_word(s[p.len() as int]) {
            p
        } else {
            r
        }) + replace_var(s.skip(p.len() as int), p, r)
    } else {
        seq![s[0]] + replace_var(s.drop_first(), p, r)
    }
}

/// The byte lengths of the variable names.
pub open spec fn name_lens(env: Seq<(String, String)>) -> Seq<usize> {
    env.map_values(|e: (String, String)| vstd::utf8::encode_utf8(e.0@).len() as usize)
}

/// `s` with the variables at `order` substituted in turn: `${NAME}`
/// everywhere, then `$NAME` where no word character follows.
pub open spec fn substituted(s: Seq<char>, env: Seq<(String, String)>, order: Seq<usize>) -> Seq<char>
    decreases order.len(),
{
    if order.len() == 0 {
        s
    } else {
        let prev = substituted(s, env, order.drop_last());
        let e = env[order.last() as int];
        replace_var(replace_all(prev, "${"@ + e.0@ + "}"@, e.1@), "$"@ + e.0@, e.1@)
    }
}

fn replace_var_exec(s: &[char], p: &[char], rep: &[char]) -> (out: Vec<char>)
    requires
        p.len() > 0,
    ensures
        out@ == replace_var(s@, p@, rep@),
{
    let mut out: Vec<char> = Vec::new();
    let mut i: usize = 0;
    assert(s@.skip(0) =~= s@);
    assert(out@ + s@ =~= s@);
    while i < s.len()
        invariant
            p.len() > 0,
            i <= s.len(),
            replace_var(s@, p@, rep@) == out@ + replace_var(s@.skip(i as int), p@, rep@),
        decreases s.len() - i,
    {
        let ghost rest = s@.skip(i as int);
        let ghost before = out@;
        if occurs_at_exec(s, p, i) {
            assert(rest.take(p.len() as int) == s@.subrange(i as int, i + p.len()));
            assert(starts_with(rest, p@));
            assert(rest.skip(p.len() as int) == s@.skip(i + p.len()));
            let word_follows = i + p.len() < s.len() && is_word_exec(s[i + p.len()]);
            assert(word_follows == (p@.len() < rest.len() && is_word(rest[p@.len() as int])));
            if word_follows {
                append_chars(&mut out, p);
            } else {
                append_chars(&mut out, rep);
            }
            i += p.len();
            assert(out@ + replace_var(s@.skip(i as int), p@, rep@) =~= before + replace_var(rest, p@, rep@));
        } else {
            proof {
                if starts_with(rest, p@) {
                    assert(rest.take(p.len() as int) == s@.subrange(i as int, i + p.len()));
                }
            }
            assert(rest.drop_first() == s@.skip(i + 1));
            assert(rest[0] == s@[i as int]);
            out.push(s[i]);
            i += 1;
            assert(out@ + replace_var(s@.skip(i as int), p@, rep@) =~= before + replace_var(rest, p@, rep@));
        }
    }
    assert(s@.skip(i as int) == Seq::<char>::empty());
    assert(out@ + Seq::<char>::empty() == out@);
    out
}

/// Substitutes the variables of `env` in a command: longer names first (so
/// that `$MELOS_ROOT` does not eat the start of `$MELOS_ROOT_PATH`), each as
/// `${NAME}` and as `$NAME` not followed by a word character.
pub fn substitute_env_vars(command: &str, env: &Vec<(String, String)>) -> (r: String)
    ensures
        exists|order: Seq<usize>|
            #[trigger] sorted_longest_first(name_lens(env@), order) && r@ == substituted(command@, env@, order),
{
    let mut lens: Vec<usize> = Vec::new();
    let mut i: usize = 0;
    while i < env.len()
        invariant
            i <= env@.len(),
            lens@ == name_lens(env@).take(i as int),
        decreases env@.len() - i,
    {
        lens.push(env[i].0.as_str().len());
        assert(lens@ =~= name_lens(env@).take(i + 1));
        i += 1;
    }
    assert(lens@ =~= name_lens(env@));
    let order = longest_first(&lens);
    let mut cur = to_chars(command);
    let mut k: usize = 0;
    while k < order.len()
        invariant
            k <= order@.len(),
            sorted_longest_first(name_lens(env@), order@),
            order@.len() == env@.len(),
            cur@ == substituted(command@, env@, order@.take(k as int)),
        decreases order@.len() - k,
    {
        let e = &env[order[k]];
        let mut braced: Vec<char> = Vec::new();
        append_str(&mut braced, "${");
        append_str(&mut braced, e.0.as_str());
        append_str(&mut braced, "}");
        let mut bare: Vec<char> = Vec::new();
        append_str(&mut bare, "$");
        append_str(&mut bare, e.0.as_str());
        proof {
            reveal_strlit("${");
            reveal_strlit("}");
            reveal_strlit("$");
        }
        let value = to_chars(e.1.as_str());
        let step = replace_chars(cur.as_slice(), braced.as_slice(), value.as_slice());
        cur = replace_var_exec(step.as_slice(), bare.as_slice(), value.as_slice());
        assert(order@.take(k + 1).drop_last() =~= order@.take(k as int));
        k += 1;
    }
    assert(order@.take(order@.len() as int) =~= order@);
    from_chars(cur.as_slice())
}

} // verus!
