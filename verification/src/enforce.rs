//! Checking that packages' constraints on their workspace siblings admit the
//! siblings' versions.
use vstd::prelude::*;
use crate::package::{Package, PackageView, package_views};
use crate::text::{append_str, from_chars, str_eq, views};
use crate::version::{before_plus, before_plus_exec, check_requirement, requirement_check};

verus! {

/// The workspace package named `name`: the last one so named.
pub open spec fn sibling_named(all: Seq<PackageView>, name: Seq<char>) -> Option<PackageView>
    decreases all.len(),
{
    if all.len() == 0 {
        None
    } else if all.last().name == name {
        Some(all.last())
    } else {
        sibling_named(all.drop_last(), name)
    }
}

/// The constraint that a package states on `dep`: its first entry for it.
pub open spec fn constraint_on(dv: Seq<(Seq<char>, Seq<char>)>, dep: Seq<char>) -> Option<Seq<char>>
    decreases dv.len(),
{
    if dv.len() == 0 {
        None
    } else if dv[0].0 == dep {
        Some(dv[0].1)
    } else {
        constraint_on(dv.drop_first(), dep)
    }
}

/// The violation line for package `p`'s dependency `dep`, where `dep` is a
/// workspace package with a version, `p` states a constraint on it, semver
/// reads both (the version without its `+` suffix), and the constraint does
/// not admit the version.
pub open spec fn violation_of(p: PackageView, dep: Seq<char>, all: Seq<PackageView>) -> Option<Seq<char>> {
    match sibling_named(all, dep) {
        Some(s) => match constraint_on(p.dependency_versions, dep) {
            Some(c) => match s.version {
                Some(v) => if requirement_check(c, before_plus(v)) == Some(false) {
                    Some("  "@ + p.name + " depends on "@ + dep + " "@ + c + " but workspace has "@ + v)
                } else {
                    None
                },
                None => None,
            },
            None => None,
        },
        None => None,
    }
}

/// The violations of package `p` for the dependency names `deps`, in order.
pub open spec fn violations_in(p: PackageView, deps: Seq<Seq<char>>, all: Seq<PackageView>) -> Seq<Seq<char>>
    decreases deps.len(),
{
    if deps.len() == 0 {
        seq![]
    } else {
        violations_in(p, deps.drop_last(), all) + match violation_of(p, deps.last(), all) {
            Some(l) => seq![l],
            None => seq![],
        }
    }
}

/// The violations of all packages, in order: each package's dependencies,
/// then its dev dependencies.
pub open spec fn violations_spec(pkgs: Seq<PackageView>, all: Seq<PackageView>) -> Seq<Seq<char>>
    decreases pkgs.len(),
{
    if pkgs.len() == 0 {
        seq![]
    } else {
        let p = pkgs.last();
        violations_spec(pkgs.drop_last(), all) + violations_in(p, p.dependencies + p.dev_dependencies, all)
    }
}

fn sibling_version(all: &[Package], name: &str) -> (r: Option<Option<String>>)
    ensures
        match r {
            Some(v) => sibling_named(package_views(all@), name@) matches Some(s) && s.version == crate::package::opt_string_view(v),
            None => sibling_named(package_views(all@), name@) is None,
        },
{
    let mut k = all.len();
    assert(package_views(all@).take(k as int) =~= package_views(all@));
    while k > 0
        invariant
            k <= all@.len(),
            sibling_named(package_views(all@), name@) == sibling_named(package_views(all@).take(k as int), name@),
        decreases k,
    {
        assert(package_views(all@).take(k as int).drop_last() =~= package_views(all@).take(k - 1));
        if str_eq(all[k - 1].name.as_str(), name) {
            return Some(all[k - 1].version.clone());
        }
        k -= 1;
    }
    None
}

fn constraint_of_exec(dv: &Vec<(String, String)>, dep: &str) -> (r: Option<String>)
    ensures
        crate::package::opt_string_view(r) == constraint_on(crate::package::pair_views(dv@), dep@),
{
    let mut k: usize = 0;
    assert(crate::package::pair_views(dv@).skip(0) =~= crate::package::pair_views(dv@));
    while k < dv.len()
        invariant
            k <= dv@.len(),
            constraint_on(crate::package::pair_views(dv@), dep@) == constraint_on(
                crate::package::pair_views(dv@).skip(k as int),
                dep@,
            ),
        decreases dv@.len() - k,
    {
        assert(crate::package::pair_views(dv@).skip(k as int).drop_first() =~= crate::package::pair_views(dv@).skip(
            k + 1,
        ));
        if str_eq(dv[k].0.as_str(), dep) {
            return Some(dv[k].1.clone());
        }
        k += 1;
    }
    None
}

fn violation_exec(p: &Package, dep: &str, all: &[Package]) -> (r: Option<String>)
    ensures
        crate::package::opt_string_view(r) == violation_of(p@, dep@, package_views(all@)),
{
    let sv = match sibling_version(all, dep) {
        Some(v) => v,
        None => return None,
    };
    let c = match constraint_of_exec(&p.dependency_versions, dep) {
        Some(c) => c,
        None => return None,
    };
    let v = match sv {
        Some(v) => v,
        None => return None,
    };
    let base = before_plus_exec(v.as_str());
    match check_requirement(c.as_str(), base.as_str()) {
        Some(false) => {
            let mut m: Vec<char> = Vec::new();
            append_str(&mut m, "  ");
            append_str(&mut m, p.name.as_str());
            append_str(&mut m, " depends on ");
            append_str(&mut m, dep);
            append_str(&mut m, " ");
            append_str(&mut m, c.as_str());
            append_str(&mut m, " but workspace has ");
            append_str(&mut m, v.as_str());
            Some(from_chars(m.as_slice()))
        },
        _ => None,
    }
}

fn push_violations(out: &mut Vec<String>, p: &Package, deps: &Vec<String>, all: &[Package])
    ensures
        views(final(out)@) == views(old(out)@) + violations_in(p@, views(deps@), package_views(all@)),
{
    let ghost start = views(out@);
    let mut k: usize = 0;
    while k < deps.len()
        invariant
            k <= deps@.len(),
            views(out@) == start + violations_in(p@, views(deps@).take(k as int), package_views(all@)),
        decreases deps@.len() - k,
    {
        assert(views(deps@).take(k + 1).drop_last() =~= views(deps@).take(k as int));
        assert(views(deps@).take(k + 1).last() == deps@[k as int]@);
        let ghost before = views(out@);
        match violation_exec(p, deps[k].as_str(), all) {
            Some(l) => {
                out.push(l);
                assert(views(out@) =~= before.push(views(out@).last()));
            },
            None => {},
        }
        assert(views(out@) =~= start + violations_in(p@, views(deps@).take(k + 1), package_views(all@)));
        k += 1;
    }
    assert(views(deps@).take(deps@.len() as int) =~= views(deps@));
}

proof fn lemma_violations_append(p: PackageView, a: Seq<Seq<char>>, b: Seq<Seq<char>>, all: Seq<PackageView>)
    ensures
        violations_in(p, a + b, all) == violations_in(p, a, all) + violations_in(p, b, all),
    decreases b.len(),
{
    if b.len() == 0 {
        assert(a + b =~= a);
    } else {
        lemma_violations_append(p, a, b.drop_last(), all);
        assert((a + b).drop_last() =~= a + b.drop_last());
    }
}

/// The constraint violations among the packages' dependencies on workspace
/// packages (`all`), as report lines.
pub fn version_violations(packages: &[Package], all: &[Package]) -> (r: Vec<String>)
    ensures
        views(r@) == violations_spec(package_views(packages@), package_views(all@)),
{
    let mut out: Vec<String> = Vec::new();
    let mut i: usize = 0;
    while i < packages.len()
        invariant
            i <= packages@.len(),
            views(out@) == violations_spec(package_views(packages@).take(i as int), package_views(all@)),
        decreases packages@.len() - i,
    {
        assert(package_views(packages@).take(i + 1).drop_last() =~= package_views(packages@).take(i as int));
        assert(package_views(packages@).take(i + 1).last() == packages@[i as int]@);
        let p = &packages[i];
        let ghost before = views(out@);
        push_violations(&mut out, p, &p.dependencies, all);
        push_violations(&mut out, p, &p.dev_dependencies, all);
        proof {
            lemma_violations_append(p@, p@.dependencies, p@.dev_dependencies, package_views(all@));
        }
        assert(views(out@) =~= before + violations_in(p@, p@.dependencies + p@.dev_dependencies, package_views(all@)));
        i += 1;
    }
    assert(package_views(packages@).take(packages@.len() as int) =~= package_views(packages@));
    out
}

/// The error text for violations: their number, the lines, and what to do.
pub open spec fn violations_message_spec(lines: Seq<Seq<char>>) -> Seq<char> {
    "Version constraint violations found ("@ + crate::text::digits(lines.len()) + " issue"@ + (if lines.len() == 1 {
        ""@
    } else {
        "s"@
    }) + "):\n"@ + crate::text::join(lines, "\n"@)
        + "\n\nUpdate the version constraints in pubspec.yaml to match the workspace packages' actual versions."@
}

/// The error text for a list of violations.
pub fn violations_message(lines: &Vec<String>) -> (r: String)
    ensures
        r@ == violations_message_spec(views(lines@)),
{
    let mut m: Vec<char> = Vec::new();
    append_str(&mut m, "Version constraint violations found (");
    let n = crate::text::u64_digits(lines.len() as u64);
    crate::text::append_chars(&mut m, n.as_slice());
    append_str(&mut m, " issue");
    if lines.len() != 1 {
        append_str(&mut m, "s");
    }
    append_str(&mut m, "):\n");
    let body = crate::text::join_strings(lines, "\n");
    append_str(&mut m, body.as_str());
    append_str(&mut m, "\n\nUpdate the version constraints in pubspec.yaml to match the workspace packages' actual versions.");
    proof {
        reveal_strlit("");
    }
    assert(m@ =~= violations_message_spec(views(lines@)));
    from_chars(m.as_slice())
}

/// Checks the packages' constraints on workspace packages: an error with
/// the violations where there are any.
pub fn enforce_versions(packages: &[Package], all: &[Package]) -> (r: Result<(), String>)
    ensures
        ({
            let v = violations_spec(package_views(packages@), package_views(all@));
            match r {
                Ok(()) => v.len() == 0,
                Err(m) => v.len() > 0 && m@ == violations_message_spec(v),
            }
        }),
{
    let lines = version_violations(packages, all);
    if lines.len() == 0 {
        Ok(())
    } else {
        Err(violations_message(&lines))
    }
}

} // verus!
