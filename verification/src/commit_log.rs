//! Reading `git log` output into conventional commits, and grouping commits
//! by the packages whose files they change.
use vstd::prelude::*;
use crate::package::{Package, PackageView, package_views};
use crate::release::commit_groups_view;
use crate::text::{
    chars_eq_str, from_chars, join, join_chars, lemma_deep_view_chars, lines, lines_of, slice_chars,
    starts_with, starts_with_chars, to_chars, trim, trim_chars,
};
use crate::tui::{path_relative_to, path_strip_prefix};
use crate::version::{ConventionalCommit, commit_parts, parse_commit_spec, parse_conventional_commit};

verus! {

/// The line that ends each commit record in the log output.
pub open spec fn record_end() -> Seq<char> {
    "---END---"@
}

/// The state after reading lines `ls` of a log whose records are a hash
/// line, the message lines and an end line: the finished records (hash and
/// message, lines joined by newlines), the hash of the open record (empty
/// before its first line) and the message lines read so far.
pub open spec fn log_state(ls: Seq<Seq<char>>) -> (Seq<(Seq<char>, Seq<char>)>, Seq<char>, Seq<Seq<char>>)
    decreases ls.len(),
{
    if ls.len() == 0 {
        (seq![], seq![], seq![])
    } else {
        let prev = log_state(ls.drop_last());
        let line = ls.last();
        if line == record_end() {
            (
                if prev.1.len() > 0 {
                    prev.0.push((prev.1, join(prev.2, seq!['\n'])))
                } else {
                    prev.0
                },
                seq![],
                seq![],
            )
        } else if prev.1.len() == 0 {
            (prev.0, line, prev.2)
        } else {
            (prev.0, prev.1, prev.2.push(line))
        }
    }
}

/// The conventional commits among records `recs`, in order: each record's
/// trimmed message parsed with its hash; other records are left out.
pub open spec fn log_commits(recs: Seq<(Seq<char>, Seq<char>)>) -> Seq<
    (Seq<char>, Option<Seq<char>>, bool, Seq<char>, Option<Seq<char>>, Seq<char>),
>
    decreases recs.len(),
{
    if recs.len() == 0 {
        seq![]
    } else {
        let prev = log_commits(recs.drop_last());
        match parse_commit_spec(recs.last().0, trim(recs.last().1)) {
            Some(c) => prev.push(c),
            None => prev,
        }
    }
}

pub open spec fn commits_parts(v: Seq<ConventionalCommit>) -> Seq<
    (Seq<char>, Option<Seq<char>>, bool, Seq<char>, Option<Seq<char>>, Seq<char>),
> {
    v.map_values(|c: ConventionalCommit| commit_parts(c))
}

/// The conventional commits of `git log --format=%h%n%B%n---END---`
/// output, in the order of the log. A record still open at the end of the
/// output is dropped.
pub fn parse_commit_log(output: &str) -> (r: Vec<ConventionalCommit>)
    ensures
        commits_parts(r@) == log_commits(log_state(lines(output@)).0),
{
    let chars = to_chars(output);
    let ls = lines_of(chars.as_slice());
    proof {
        lemma_deep_view_chars(ls);
    }
    let ghost lv = ls.deep_view();
    let nl: Vec<char> = vec!['\n'];
    assert(nl@ =~= seq!['\n']);
    let mut out: Vec<ConventionalCommit> = Vec::new();
    let mut hash: Vec<char> = Vec::new();
    let mut msg: Vec<Vec<char>> = Vec::new();
    let ghost mut recs: Seq<(Seq<char>, Seq<char>)> = seq![];
    let ghost mut mv: Seq<Seq<char>> = seq![];
    assert(lv.take(0) =~= Seq::<Seq<char>>::empty());
    let mut i: usize = 0;
    while i < ls.len()
        invariant
            i <= ls@.len(),
            lv == lines(output@),
            lv.len() == ls@.len(),
            forall|j: int| 0 <= j < ls@.len() ==> #[trigger] lv[j] == ls@[j]@,
            nl@ == seq!['\n'],
            log_state(lv.take(i as int)) == (recs, hash@, mv),
            msg@.len() == mv.len(),
            forall|j: int| 0 <= j < mv.len() ==> #[trigger] msg@[j]@ == mv[j],
            commits_parts(out@) == log_commits(recs),
        decreases ls@.len() - i,
    {
        proof {
            assert(lv.take(i + 1).drop_last() =~= lv.take(i as int));
            assert(lv.take(i + 1).last() == ls@[i as int]@);
        }
        if chars_eq_str(ls[i].as_slice(), "---END---") {
            if hash.len() > 0 {
                proof {
                    lemma_deep_view_chars(msg);
                    assert(msg.deep_view() =~= mv);
                }
                let joined = join_chars(&msg, nl.as_slice());
                let t = trim_chars(joined.as_slice());
                let hs = from_chars(hash.as_slice());
                let ms = from_chars(t.as_slice());
                let parsed = parse_conventional_commit(hs.as_str(), ms.as_str());
                let ghost before = out@;
                match parsed {
                    Some(c) => {
                        out.push(c);
                        proof {
                            assert(commits_parts(out@) =~= commits_parts(before).push(commit_parts(c)));
                        }
                    },
                    None => {},
                }
                proof {
                    let nrecs = recs.push((hash@, join(mv, seq!['\n'])));
                    assert(nrecs.drop_last() =~= recs);
                    recs = nrecs;
                }
            }
            hash = Vec::new();
            msg = Vec::new();
            proof {
                mv = seq![];
            }
        } else if hash.len() == 0 {
            hash = slice_chars(ls[i].as_slice(), 0, ls[i].len());
            assert(ls@[i as int]@.subrange(0, ls@[i as int]@.len() as int) =~= ls@[i as int]@);
        } else {
            let line = slice_chars(ls[i].as_slice(), 0, ls[i].len());
            assert(ls@[i as int]@.subrange(0, ls@[i as int]@.len() as int) =~= ls@[i as int]@);
            msg.push(line);
            proof {
                mv = mv.push(ls@[i as int]@);
            }
        }
        i += 1;
    }
    assert(lv.take(ls@.len() as int) =~= lv);
    out
}

// ---------------------------------------------------------------------------
// Commits by package
// ---------------------------------------------------------------------------

/// Whether one of the changed files `files` starts with `prefix`.
pub open spec fn touches(files: Seq<Seq<char>>, prefix: Seq<char>) -> bool {
    exists|k: int| 0 <= k < files.len() && starts_with(#[trigger] files[k], prefix)
}

/// The commits, in order, of which a changed file starts with `prefix`;
/// `changed[i]` holds the files that commit `i` changes.
pub open spec fn touching_commits(
    commits: Seq<ConventionalCommit>,
    changed: Seq<Seq<Seq<char>>>,
    prefix: Seq<char>,
) -> Seq<ConventionalCommit>
    decreases commits.len(),
{
    if commits.len() == 0 {
        seq![]
    } else {
        let prev = touching_commits(commits.drop_last(), changed, prefix);
        if touches(changed[commits.len() - 1], prefix) {
            prev.push(commits.last())
        } else {
            prev
        }
    }
}

/// A package's directory relative to the workspace root (its full path
/// where it lies outside the root).
pub open spec fn package_prefix(p: PackageView, root: Seq<char>) -> Seq<char> {
    match path_relative_to(p.path, root) {
        Some(rel) => rel,
        None => p.path,
    }
}

/// For each package in order that some commit touches, its name and the
/// commits that touch it.
pub open spec fn commit_groups(
    pkgs: Seq<PackageView>,
    root: Seq<char>,
    commits: Seq<ConventionalCommit>,
    changed: Seq<Seq<Seq<char>>>,
) -> Seq<(Seq<char>, Seq<ConventionalCommit>)>
    decreases pkgs.len(),
{
    if pkgs.len() == 0 {
        seq![]
    } else {
        let prev = commit_groups(pkgs.drop_last(), root, commits, changed);
        let t = touching_commits(commits, changed, package_prefix(pkgs.last(), root));
        if t.len() > 0 {
            prev.push((pkgs.last().name, t))
        } else {
            prev
        }
    }
}

pub open spec fn changed_view(v: Seq<Vec<String>>) -> Seq<Seq<Seq<char>>> {
    v.map_values(|files: Vec<String>| files@.map_values(|f: String| f@))
}

fn copy_opt(o: &Option<String>) -> (r: Option<String>)
    ensures
        r == *o,
{
    match o {
        Some(s) => Some(s.clone()),
        None => None,
    }
}

fn copy_commit(c: &ConventionalCommit) -> (r: ConventionalCommit)
    ensures
        r == *c,
{
    ConventionalCommit {
        commit_type: c.commit_type.clone(),
        scope: copy_opt(&c.scope),
        breaking: c.breaking,
        description: c.description.clone(),
        body: copy_opt(&c.body),
        hash: c.hash.clone(),
    }
}

fn touches_exec(files: &Vec<String>, prefix: &[char]) -> (r: bool)
    ensures
        r == touches(files@.map_values(|f: String| f@), prefix@),
{
    let ghost fv = files@.map_values(|f: String| f@);
    let mut k: usize = 0;
    while k < files.len()
        invariant
            k <= files@.len(),
            fv == files@.map_values(|f: String| f@),
            forall|j: int| 0 <= j < k ==> !starts_with(#[trigger] fv[j], prefix@),
        decreases files@.len() - k,
    {
        let f = to_chars(files[k].as_str());
        if starts_with_chars(f.as_slice(), prefix) {
            assert(starts_with(fv[k as int], prefix@));
            return true;
        }
        k += 1;
    }
    false
}

fn touching_exec(commits: &[ConventionalCommit], changed: &Vec<Vec<String>>, prefix: &[char]) -> (r: Vec<ConventionalCommit>)
    requires
        changed@.len() == commits@.len(),
    ensures
        r@ == touching_commits(commits@, changed_view(changed@), prefix@),
{
    let ghost cv = changed_view(changed@);
    let mut out: Vec<ConventionalCommit> = Vec::new();
    let mut i: usize = 0;
    assert(commits@.take(0) =~= Seq::<ConventionalCommit>::empty());
    while i < commits.len()
        invariant
            i <= commits@.len(),
            changed@.len() == commits@.len(),
            cv == changed_view(changed@),
            out@ == touching_commits(commits@.take(i as int), cv, prefix@),
        decreases commits@.len() - i,
    {
        assert(commits@.take(i + 1).drop_last() =~= commits@.take(i as int));
        assert(cv[i as int] == changed@[i as int]@.map_values(|f: String| f@));
        if touches_exec(&changed[i], prefix) {
            let c = copy_commit(&commits[i]);
            out.push(c);
        }
        i += 1;
    }
    assert(commits@.take(commits@.len() as int) =~= commits@);
    out
}

/// The commits that change each package, for the packages that some commit
/// changes, in the order of `packages`: a commit changes a package where one
/// of its changed files (`changed[i]` for commit `i`, relative to the
/// workspace root `root`) starts with the package's directory relative to
/// the root. Packages that share a name get an entry each.
pub fn group_commits_by_package(
    root: &str,
    commits: &[ConventionalCommit],
    changed: &Vec<Vec<String>>,
    packages: &[Package],
) -> (r: Vec<(String, Vec<ConventionalCommit>)>)
    requires
        changed@.len() == commits@.len(),
    ensures
        commit_groups_view(r@) == commit_groups(package_views(packages@), root@, commits@, changed_view(changed@)),
{
    let ghost pv = package_views(packages@);
    let mut out: Vec<(String, Vec<ConventionalCommit>)> = Vec::new();
    let mut i: usize = 0;
    assert(pv.take(0) =~= Seq::<PackageView>::empty());
    while i < packages.len()
        invariant
            i <= packages@.len(),
            changed@.len() == commits@.len(),
            pv == package_views(packages@),
            commit_groups_view(out@) == commit_groups(pv.take(i as int), root@, commits@, changed_view(changed@)),
        decreases packages@.len() - i,
    {
        assert(pv.take(i + 1).drop_last() =~= pv.take(i as int));
        assert(pv.take(i + 1).last() == packages@[i as int]@);
        let prefix = match path_strip_prefix(packages[i].path.as_str(), root) {
            Some(rel) => to_chars(rel.as_str()),
            None => to_chars(packages[i].path.as_str()),
        };
        let t = touching_exec(commits, changed, prefix.as_slice());
        if t.len() > 0 {
            let ghost before = out@;
            out.push((packages[i].name.clone(), t));
            assert(commit_groups_view(out@) =~= commit_groups_view(before).push((packages@[i as int].name@, t@)));
        }
        i += 1;
    }
    assert(pv.take(packages@.len() as int) =~= pv);
    out
}

} // verus!
