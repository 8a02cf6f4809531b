//! The results of the workspace health checks.
use vstd::prelude::*;
use crate::package::{Package, PackageView, package_views, is_private_spec};
use crate::text::{from_chars, str_eq, to_chars, views};
use crate::watcher::{insert_sorted, strictly_sorted};

verus! {

/// A version constraint and the packages that use it.
#[derive(Debug, Clone, Default)]
pub struct ConstraintUsage {
    pub constraint: String,
    pub packages: Vec<String>,
}

/// An outside dependency used under more than one constraint.
#[derive(Debug, Clone, Default)]
pub struct VersionDriftIssue {
    pub dependency: String,
    pub constraints: Vec<ConstraintUsage>,
}

/// A public package that lacks recommended `pubspec.yaml` fields.
#[derive(Debug, Clone, Default)]
pub struct MissingFieldsIssue {
    pub package: String,
    pub missing: Vec<String>,
}

/// The outcome of the SDK constraint check.
#[derive(Debug, Clone, Default)]
pub struct SdkConsistencyResult {
    /// Packages without a Dart SDK constraint.
    pub missing_sdk: Vec<String>,
    /// The Dart SDK constraints in use, where there is more than one.
    pub dart_sdk_drift: Vec<ConstraintUsage>,
    /// The Flutter SDK constraints in use, where there is more than one.
    pub flutter_sdk_drift: Vec<ConstraintUsage>,
}

/// The findings of a health run; a check that was not run is `None`.
#[derive(Debug, Clone, Default)]
pub struct HealthReport {
    pub version_drift: Option<Vec<VersionDriftIssue>>,
    pub missing_fields: Option<Vec<MissingFieldsIssue>>,
    pub sdk_consistency: Option<SdkConsistencyResult>,
    pub total_issues: usize,
}

// ---------------------------------------------------------------------------
// Grouping by constraint
// ---------------------------------------------------------------------------

/// The keys of `(key, name)` pairs.
pub open spec fn keys_of(p: Seq<(Seq<char>, Seq<char>)>) -> Set<Seq<char>> {
    p.map_values(|x: (Seq<char>, Seq<char>)| x.0).to_set()
}

/// The names paired with `key`, in order.
pub open spec fn names_with(p: Seq<(Seq<char>, Seq<char>)>, key: Seq<char>) -> Seq<Seq<char>>
    decreases p.len(),
{
    if p.len() == 0 {
        seq![]
    } else {
        names_with(p.drop_last(), key) + if p.last().0 == key {
            seq![p.last().1]
        } else {
            seq![]
        }
    }
}

pub open spec fn usage_view(u: ConstraintUsage) -> (Seq<char>, Seq<Seq<char>>) {
    (u.constraint@, views(u.packages@))
}

pub open spec fn usages_view(v: Seq<ConstraintUsage>) -> Seq<(Seq<char>, Seq<Seq<char>>)> {
    v.map_values(|u: ConstraintUsage| usage_view(u))
}

/// Whether `g` groups the pairs `p` by key: the keys sorted, each once,
/// each with the names paired with it, in order.
pub open spec fn grouped(p: Seq<(Seq<char>, Seq<char>)>, g: Seq<(Seq<char>, Seq<Seq<char>>)>) -> bool {
    &&& strictly_sorted(g.map_values(|x: (Seq<char>, Seq<Seq<char>>)| x.0))
    &&& g.map_values(|x: (Seq<char>, Seq<Seq<char>>)| x.0).to_set() == keys_of(p)
    &&& forall|k: int| 0 <= k < g.len() ==> (#[trigger] g[k]).1 == names_with(p, g[k].0)
}

pub open spec fn str_pairs(v: Seq<(String, String)>) -> Seq<(Seq<char>, Seq<char>)> {
    v.map_values(|x: (String, String)| (x.0@, x.1@))
}

/// The names paired with `key`.
fn names_with_exec(p: &Vec<(String, String)>, key: &str) -> (r: Vec<String>)
    ensures
        views(r@) == names_with(str_pairs(p@), key@),
{
    let mut out: Vec<String> = Vec::new();
    let mut i: usize = 0;
    while i < p.len()
        invariant
            i <= p@.len(),
            views(out@) == names_with(str_pairs(p@).take(i as int), key@),
        decreases p@.len() - i,
    {
        assert(str_pairs(p@).take(i + 1).drop_last() =~= str_pairs(p@).take(i as int));
        let ghost before = views(out@);
        if str_eq(p[i].0.as_str(), key) {
            out.push(p[i].1.clone());
            assert(views(out@) =~= before.push(p@[i as int].1@));
        } else {
            assert(before + seq![] =~= before);
        }
        i += 1;
    }
    assert(str_pairs(p@).take(p@.len() as int) =~= str_pairs(p@));
    out
}

/// Groups `(key, name)` pairs by key.
fn group_by_key(p: &Vec<(String, String)>) -> (r: Vec<ConstraintUsage>)
    ensures
        grouped(str_pairs(p@), usages_view(r@)),
{
    let mut keys: Vec<Vec<char>> = Vec::new();
    let mut i: usize = 0;
    assert(keys.deep_view().to_set() =~= str_pairs(p@).take(0).map_values(|x: (Seq<char>, Seq<char>)| x.0).to_set());
    while i < p.len()
        invariant
            i <= p@.len(),
            strictly_sorted(keys.deep_view()),
            keys.deep_view().to_set() == str_pairs(p@).take(i as int).map_values(|x: (Seq<char>, Seq<char>)| x.0).to_set(),
        decreases p@.len() - i,
    {
        let ghost before = str_pairs(p@).take(i as int).map_values(|x: (Seq<char>, Seq<char>)| x.0);
        let x = to_chars(p[i].0.as_str());
        insert_sorted(&mut keys, x);
        assert(str_pairs(p@).take(i + 1).map_values(|x: (Seq<char>, Seq<char>)| x.0) =~= before.push(p@[i as int].0@));
        proof {
            before.lemma_push_to_set_commute(p@[i as int].0@);
        }
        i += 1;
    }
    assert(str_pairs(p@).take(p@.len() as int) =~= str_pairs(p@));
    proof {
        crate::text::lemma_deep_view_chars(keys);
    }
    let mut out: Vec<ConstraintUsage> = Vec::new();
    let mut k: usize = 0;
    while k < keys.len()
        invariant
            k <= keys@.len(),
            keys.deep_view().len() == keys@.len(),
            forall|m: int| 0 <= m < keys@.len() ==> #[trigger] keys.deep_view()[m] == keys@[m]@,
            usages_view(out@).map_values(|x: (Seq<char>, Seq<Seq<char>>)| x.0) == keys.deep_view().take(k as int),
            forall|m: int| 0 <= m < out@.len() ==> (#[trigger] usages_view(out@)[m]).1 == names_with(
                str_pairs(p@),
                usages_view(out@)[m].0,
            ),
        decreases keys@.len() - k,
    {
        let key = from_chars(keys[k].as_slice());
        let names = names_with_exec(p, key.as_str());
        let ghost before = usages_view(out@);
        out.push(ConstraintUsage { constraint: key, packages: names });
        assert(usages_view(out@) =~= before.push((keys@[k as int]@, views(names@))));
        assert(keys.deep_view().take(k + 1) =~= keys.deep_view().take(k as int).push(keys.deep_view()[k as int]));
        assert(usages_view(out@).map_values(|x: (Seq<char>, Seq<Seq<char>>)| x.0) =~= before.map_values(
            |x: (Seq<char>, Seq<Seq<char>>)| x.0,
        ).push(keys@[k as int]@));
        k += 1;
    }
    assert(keys.deep_view().take(keys@.len() as int) =~= keys.deep_view());
    out
}

// ---------------------------------------------------------------------------
// Version drift
// ---------------------------------------------------------------------------

/// A constraint on an outside dependency: the dependency, the constraint
/// and the package that states it.
pub open spec fn member_names(pkgs: Seq<PackageView>) -> Seq<Seq<char>> {
    pkgs.map_values(|p: PackageView| p.name)
}

/// The constraints of one package on dependencies outside `members`.
pub open spec fn pair_uses(dv: Seq<(Seq<char>, Seq<char>)>, name: Seq<char>, members: Seq<Seq<char>>) -> Seq<
    (Seq<char>, (Seq<char>, Seq<char>)),
>
    decreases dv.len(),
{
    if dv.len() == 0 {
        seq![]
    } else {
        pair_uses(dv.drop_last(), name, members) + if members.contains(dv.last().0) {
            seq![]
        } else {
            seq![(dv.last().0, (dv.last().1, name))]
        }
    }
}

/// The constraints of all packages on dependencies outside `members`, in
/// package order.
pub open spec fn all_uses(pkgs: Seq<PackageView>, members: Seq<Seq<char>>) -> Seq<(Seq<char>, (Seq<char>, Seq<char>))>
    decreases pkgs.len(),
{
    if pkgs.len() == 0 {
        seq![]
    } else {
        all_uses(pkgs.drop_last(), members) + pair_uses(pkgs.last().dependency_versions, pkgs.last().name, members)
    }
}

/// The constraints on dependencies that are not packages of the workspace.
pub open spec fn drift_uses(pkgs: Seq<PackageView>) -> Seq<(Seq<char>, (Seq<char>, Seq<char>))> {
    all_uses(pkgs, member_names(pkgs))
}

/// The (constraint, package) pairs for dependency `d`.
pub open spec fn uses_of(u: Seq<(Seq<char>, (Seq<char>, Seq<char>))>, d: Seq<char>) -> Seq<(Seq<char>, Seq<char>)>
    decreases u.len(),
{
    if u.len() == 0 {
        seq![]
    } else {
        uses_of(u.drop_last(), d) + if u.last().0 == d {
            seq![u.last().1]
        } else {
            seq![]
        }
    }
}

/// Whether the pairs hold two different keys.
pub open spec fn two_keys(p: Seq<(Seq<char>, Seq<char>)>) -> bool {
    exists|i: int, j: int| 0 <= i < p.len() && 0 <= j < p.len() && #[trigger] p[i].0 != #[trigger] p[j].0
}

/// Whether dependency `d` is used under two different constraints.
pub open spec fn drifting(u: Seq<(Seq<char>, (Seq<char>, Seq<char>))>, d: Seq<char>) -> bool {
    two_keys(uses_of(u, d))
}

pub open spec fn issue_deps(v: Seq<VersionDriftIssue>) -> Seq<Seq<char>> {
    v.map_values(|i: VersionDriftIssue| i.dependency@)
}

/// Whether `r` is the drift report of `pkgs`: the drifting dependencies,
/// sorted, each once, each with its constraints grouped.
pub open spec fn drift_report(pkgs: Seq<PackageView>, r: Seq<VersionDriftIssue>) -> bool {
    let u = drift_uses(pkgs);
    &&& strictly_sorted(issue_deps(r))
    &&& issue_deps(r).to_set() == Set::new(|d: Seq<char>| drifting(u, d))
    &&& forall|k: int| 0 <= k < r.len() ==> grouped(uses_of(u, (#[trigger] r[k]).dependency@), usages_view(r[k].constraints@))
}

pub open spec fn use_views(v: Seq<(String, String, String)>) -> Seq<(Seq<char>, (Seq<char>, Seq<char>))> {
    v.map_values(|x: (String, String, String)| (x.0@, (x.1@, x.2@)))
}

proof fn lemma_grouped_two(p: Seq<(Seq<char>, Seq<char>)>, g: Seq<(Seq<char>, Seq<Seq<char>>)>)
    requires
        grouped(p, g),
    ensures
        g.len() >= 2 <==> two_keys(p),
{
    let ks = g.map_values(|x: (Seq<char>, Seq<Seq<char>>)| x.0);
    if g.len() >= 2 {
        crate::watcher::lemma_lex_irreflexive(ks[0]);
        assert(ks.to_set().contains(ks[0]));
        assert(ks.to_set().contains(ks[1]));
        assert(keys_of(p).contains(ks[0]));
        assert(keys_of(p).contains(ks[1]));
        let pk = p.map_values(|x: (Seq<char>, Seq<char>)| x.0);
        let i = choose|i: int| 0 <= i < pk.len() && pk[i] == ks[0];
        let j = choose|j: int| 0 <= j < pk.len() && pk[j] == ks[1];
        assert(p[i].0 != p[j].0);
    }
    if two_keys(p) {
        let (i, j) = choose|i: int, j: int| 0 <= i < p.len() && 0 <= j < p.len() && #[trigger] p[i].0 != #[trigger] p[j].0;
        let pk = p.map_values(|x: (Seq<char>, Seq<char>)| x.0);
        assert(pk[i] == p[i].0 && pk[j] == p[j].0);
        assert(keys_of(p).contains(p[i].0));
        assert(keys_of(p).contains(p[j].0));
        assert(ks.contains(p[i].0));
        assert(ks.contains(p[j].0));
        if g.len() < 2 {
            let a = choose|a: int| 0 <= a < ks.len() && ks[a] == p[i].0;
            let b = choose|b: int| 0 <= b < ks.len() && ks[b] == p[j].0;
            assert(a == 0 && b == 0);
        }
    }
}

proof fn lemma_uses_of_member(u: Seq<(Seq<char>, (Seq<char>, Seq<char>))>, d: Seq<char>)
    requires
        uses_of(u, d).len() > 0,
    ensures
        u.map_values(|x: (Seq<char>, (Seq<char>, Seq<char>))| x.0).contains(d),
    decreases u.len(),
{
    let m = u.map_values(|x: (Seq<char>, (Seq<char>, Seq<char>))| x.0);
    if u.last().0 == d {
        assert(m[u.len() - 1] == d);
    } else {
        lemma_uses_of_member(u.drop_last(), d);
        let mr = u.drop_last().map_values(|x: (Seq<char>, (Seq<char>, Seq<char>))| x.0);
        let k = choose|k: int| 0 <= k < mr.len() && mr[k] == d;
        assert(m[k] == d);
    }
}

fn member_names_exec(packages: &[Package]) -> (r: Vec<String>)
    ensures
        views(r@) == member_names(package_views(packages@)),
{
    let mut out: Vec<String> = Vec::new();
    let mut i: usize = 0;
    while i < packages.len()
        invariant
            i <= packages@.len(),
            views(out@) == member_names(package_views(packages@)).take(i as int),
        decreases packages@.len() - i,
    {
        let ghost before = views(out@);
        out.push(packages[i].name.clone());
        assert(views(out@) =~= before.push(packages@[i as int].name@));
        assert(member_names(package_views(packages@)).take(i + 1) =~= member_names(package_views(packages@)).take(
            i as int,
        ).push(packages@[i as int].name@));
        i += 1;
    }
    assert(member_names(package_views(packages@)).take(packages@.len() as int) =~= member_names(
        package_views(packages@),
    ));
    out
}

fn contains_name(names: &Vec<String>, x: &str) -> (r: bool)
    ensures
        r == views(names@).contains(x@),
{
    let mut i: usize = 0;
    while i < names.len()
        invariant
            i <= names@.len(),
            forall|k: int| 0 <= k < i ==> names@[k]@ != x@,
        decreases names@.len() - i,
    {
        if str_eq(names[i].as_str(), x) {
            assert(views(names@)[i as int] == x@);
            return true;
        }
        i += 1;
    }
    assert forall|k: int| 0 <= k < views(names@).len() implies views(names@)[k] != x@ by {
        assert(views(names@)[k] == names@[k]@);
    }
    false
}

fn collect_uses(packages: &[Package], members: &Vec<String>) -> (r: Vec<(String, String, String)>)
    ensures
        use_views(r@) == all_uses(package_views(packages@), views(members@)),
{
    let mut out: Vec<(String, String, String)> = Vec::new();
    let mut i: usize = 0;
    while i < packages.len()
        invariant
            i <= packages@.len(),
            use_views(out@) == all_uses(package_views(packages@).take(i as int), views(members@)),
        decreases packages@.len() - i,
    {
        let p = &packages[i];
        let ghost start = use_views(out@);
        assert(package_views(packages@).take(i + 1).drop_last() =~= package_views(packages@).take(i as int));
        assert(package_views(packages@).take(i + 1).last() == p@);
        let dv = &p.dependency_versions;
        let mut j: usize = 0;
        while j < dv.len()
            invariant
                j <= dv@.len(),
                dv@ == p.dependency_versions@,
                use_views(out@) == start + pair_uses(
                    crate::package::pair_views(dv@).take(j as int),
                    p.name@,
                    views(members@),
                ),
            decreases dv@.len() - j,
        {
            assert(crate::package::pair_views(dv@).take(j + 1).drop_last() =~= crate::package::pair_views(dv@).take(
                j as int,
            ));
            let ghost before = use_views(out@);
            if contains_name(members, dv[j].0.as_str()) {
                assert(before + seq![] =~= before);
            } else {
                out.push((dv[j].0.clone(), dv[j].1.clone(), p.name.clone()));
                assert(use_views(out@) =~= before.push((dv@[j as int].0@, (dv@[j as int].1@, p.name@))));
            }
            j += 1;
        }
        assert(crate::package::pair_views(dv@).take(dv@.len() as int) =~= crate::package::pair_views(dv@));
        i += 1;
    }
    assert(package_views(packages@).take(packages@.len() as int) =~= package_views(packages@));
    out
}

fn uses_of_exec(u: &Vec<(String, String, String)>, d: &str) -> (r: Vec<(String, String)>)
    ensures
        str_pairs(r@) == uses_of(use_views(u@), d@),
{
    let mut out: Vec<(String, String)> = Vec::new();
    let mut i: usize = 0;
    while i < u.len()
        invariant
            i <= u@.len(),
            str_pairs(out@) == uses_of(use_views(u@).take(i as int), d@),
        decreases u@.len() - i,
    {
        assert(use_views(u@).take(i + 1).drop_last() =~= use_views(u@).take(i as int));
        let ghost before = str_pairs(out@);
        if str_eq(u[i].0.as_str(), d) {
            out.push((u[i].1.clone(), u[i].2.clone()));
            assert(str_pairs(out@) =~= before.push((u@[i as int].1@, u@[i as int].2@)));
        } else {
            assert(before + seq![] =~= before);
        }
        i += 1;
    }
    assert(use_views(u@).take(u@.len() as int) =~= use_views(u@));
    out
}

/// The outside dependencies that packages constrain differently, sorted,
/// each with its constraints (sorted) and the packages that use each.
pub fn version_drift(packages: &[Package]) -> (r: Vec<VersionDriftIssue>)
    ensures
        drift_report(package_views(packages@), r@),
{
    let members = member_names_exec(packages);
    let u = collect_uses(packages, &members);
    let ghost uv = use_views(u@);
    assert(uv == drift_uses(package_views(packages@)));
    let ghost names = uv.map_values(|x: (Seq<char>, (Seq<char>, Seq<char>))| x.0);
    let mut deps: Vec<Vec<char>> = Vec::new();
    let mut i: usize = 0;
    assert(deps.deep_view().to_set() =~= names.take(0).to_set());
    while i < u.len()
        invariant
            i <= u@.len(),
            uv == use_views(u@),
            names == uv.map_values(|x: (Seq<char>, (Seq<char>, Seq<char>))| x.0),
            strictly_sorted(deps.deep_view()),
            deps.deep_view().to_set() == names.take(i as int).to_set(),
        decreases u@.len() - i,
    {
        let x = to_chars(u[i].0.as_str());
        insert_sorted(&mut deps, x);
        assert(names.take(i + 1) =~= names.take(i as int).push(names[i as int]));
        proof {
            names.take(i as int).lemma_push_to_set_commute(names[i as int]);
        }
        i += 1;
    }
    assert(names.take(u@.len() as int) =~= names);
    proof {
        crate::text::lemma_deep_view_chars(deps);
    }
    let ghost dv = deps.deep_view();
    let mut out: Vec<VersionDriftIssue> = Vec::new();
    let mut k: usize = 0;
    while k < deps.len()
        invariant
            k <= deps@.len(),
            dv == deps.deep_view(),
            dv.len() == deps@.len(),
            forall|m: int| 0 <= m < deps@.len() ==> #[trigger] dv[m] == deps@[m]@,
            strictly_sorted(dv),
            dv.to_set() == names.to_set(),
            uv == use_views(u@),
            names == uv.map_values(|x: (Seq<char>, (Seq<char>, Seq<char>))| x.0),
            uv == drift_uses(package_views(packages@)),
            strictly_sorted(issue_deps(out@)),
            forall|m: int| 0 <= m < out@.len() ==> exists|j: int| 0 <= j < k && #[trigger] dv[j] == #[trigger] issue_deps(out@)[m],
            forall|d: Seq<char>| #[trigger] issue_deps(out@).contains(d) <==> (dv.take(k as int).contains(d) && drifting(uv, d)),
            forall|m: int| 0 <= m < out@.len() ==> grouped(uses_of(uv, (#[trigger] out@[m]).dependency@), usages_view(out@[m].constraints@)),
        decreases deps@.len() - k,
    {
        let d = from_chars(deps[k].as_slice());
        let pairs = uses_of_exec(&u, d.as_str());
        let groups = group_by_key(&pairs);
        proof {
            lemma_grouped_two(str_pairs(pairs@), usages_view(groups@));
            assert(d@ == dv[k as int]);
            assert(drifting(uv, dv[k as int]) == (groups@.len() >= 2));
        }
        let ghost before = out@;
        if groups.len() >= 2 {
            out.push(VersionDriftIssue { dependency: d, constraints: groups });
            assert(issue_deps(out@) =~= issue_deps(before).push(dv[k as int]));
            assert forall|a: int, b: int| 0 <= a < b < issue_deps(out@).len() implies crate::watcher::lex_lt(
                #[trigger] issue_deps(out@)[a],
                #[trigger] issue_deps(out@)[b],
            ) by {
                if b == before.len() {
                    let j = choose|j: int| 0 <= j < k && #[trigger] dv[j] == issue_deps(before)[a];
                    assert(issue_deps(out@)[a] == issue_deps(before)[a]);
                }
            }
            assert forall|m: int| 0 <= m < out@.len() implies exists|j: int| 0 <= j < k + 1 && #[trigger] dv[j] == #[trigger] issue_deps(out@)[m] by {
                if m < before.len() {
                    assert(issue_deps(out@)[m] == issue_deps(before)[m]);
                    let j = choose|j: int| 0 <= j < k && #[trigger] dv[j] == issue_deps(before)[m];
                    assert(dv[j] == issue_deps(out@)[m]);
                } else {
                    assert(dv[k as int] == issue_deps(out@)[m]);
                }
            }
            assert forall|m: int| 0 <= m < out@.len() implies grouped(uses_of(uv, (#[trigger] out@[m]).dependency@), usages_view(out@[m].constraints@)) by {
                if m < before.len() {
                    assert(out@[m] == before[m]);
                }
            }
        } else {
            assert(!drifting(uv, dv[k as int]));
        }
        assert forall|x: Seq<char>| #[trigger] issue_deps(out@).contains(x) <==> (dv.take(k + 1).contains(x) && drifting(uv, x)) by {
            let t0 = dv.take(k as int);
            let t1 = dv.take(k + 1);
            assert(t1.len() == k + 1 && t1[k as int] == dv[k as int]);
            assert(forall|m: int| 0 <= m < k ==> #[trigger] t1[m] == t0[m]);
            assert(issue_deps(before).contains(x) <==> (t0.contains(x) && drifting(uv, x)));
            if issue_deps(out@).contains(x) {
                let m = choose|m: int| 0 <= m < issue_deps(out@).len() && #[trigger] issue_deps(out@)[m] == x;
                if m < before.len() {
                    assert(issue_deps(before)[m] == x);
                    let j = choose|j: int| 0 <= j < t0.len() && #[trigger] t0[j] == x;
                    assert(t1[j] == x);
                } else {
                    assert(groups@.len() >= 2);
                    assert(x == dv[k as int]);
                    assert(t1[k as int] == x);
                }
                assert(t1.contains(x));
                assert(drifting(uv, x));
            }
            if t1.contains(x) && drifting(uv, x) {
                let j = choose|j: int| 0 <= j < t1.len() && #[trigger] t1[j] == x;
                if j < k {
                    assert(t0[j] == x);
                    assert(issue_deps(before).contains(x));
                    let m = choose|m: int| 0 <= m < issue_deps(before).len() && #[trigger] issue_deps(before)[m] == x;
                    assert(issue_deps(out@)[m] == x);
                } else {
                    assert(x == dv[k as int]);
                    assert(groups@.len() >= 2);
                    assert(issue_deps(out@)[before.len() as int] == x);
                }
            }
        }
        k += 1;
    }
    proof {
        assert(dv.take(deps@.len() as int) =~= dv);
        assert forall|x: Seq<char>| issue_deps(out@).to_set().contains(x) <==> Set::new(|d: Seq<char>| drifting(uv, d)).contains(x) by {
            if drifting(uv, x) {
                crate::health::lemma_uses_of_member(uv, x);
                assert(names.to_set().contains(x));
                assert(dv.to_set().contains(x));
            }
        }
        assert(issue_deps(out@).to_set() =~= Set::new(|d: Seq<char>| drifting(uv, d)));
    }
    out
}

// ---------------------------------------------------------------------------
// Which checks run
// ---------------------------------------------------------------------------

/// The checks a health run makes: version drift, missing fields and SDK
/// consistency. All of them with `--all` or when none is named.
pub fn selected_checks(args: &crate::commands::HealthArgs) -> (r: (bool, bool, bool))
    ensures
        ({
            let all = args.all || (!args.version_drift && !args.missing_fields && !args.sdk_consistency);
            r == (all || args.version_drift, all || args.missing_fields, all || args.sdk_consistency)
        }),
{
    let all = args.all || (!args.version_drift && !args.missing_fields && !args.sdk_consistency);
    (all || args.version_drift, all || args.missing_fields, all || args.sdk_consistency)
}

// ---------------------------------------------------------------------------
// Missing fields
// ---------------------------------------------------------------------------

/// The `pubspec.yaml` fields that the missing-fields check reads.
#[derive(Debug, Clone, Default)]
pub struct PubspecHealthFields {
    pub description: Option<String>,
    pub homepage: Option<String>,
    pub repository: Option<String>,
    pub version: Option<String>,
}

/// Whether a field is there and not empty.
pub open spec fn filled(o: Option<String>) -> bool {
    o matches Some(s) && s@.len() > 0
}

/// The recommended fields that a package lacks: a description, a homepage
/// or repository, and a version.
pub open spec fn missing_spec(f: PubspecHealthFields) -> Seq<Seq<char>> {
    (if !filled(f.description) {
        seq!["description"@]
    } else {
        seq![]
    }) + (if !filled(f.homepage) && !filled(f.repository) {
        seq!["homepage/repository"@]
    } else {
        seq![]
    }) + (if !filled(f.version) {
        seq!["version"@]
    } else {
        seq![]
    })
}

fn filled_exec(o: &Option<String>) -> (r: bool)
    ensures
        r == filled(*o),
{
    match o {
        Some(s) => !s.as_str().is_empty(),
        None => false,
    }
}

/// The recommended fields missing from a package's `pubspec.yaml`.
pub fn missing_fields(f: &PubspecHealthFields) -> (r: Vec<String>)
    ensures
        views(r@) == missing_spec(*f),
{
    let mut out: Vec<String> = Vec::new();
    if !filled_exec(&f.description) {
        out.push("description".to_owned());
    }
    if !filled_exec(&f.homepage) && !filled_exec(&f.repository) {
        out.push("homepage/repository".to_owned());
    }
    if !filled_exec(&f.version) {
        out.push("version".to_owned());
    }
    assert(views(out@) =~= missing_spec(*f));
    out
}

pub open spec fn missing_issue_view(i: MissingFieldsIssue) -> (Seq<char>, Seq<Seq<char>>) {
    (i.package@, views(i.missing@))
}

/// The public packages, in order, that lack recommended fields, with what
/// each lacks.
pub open spec fn missing_report(pkgs: Seq<PackageView>, fields: Seq<PubspecHealthFields>) -> Seq<(Seq<char>, Seq<Seq<char>>)>
    decreases pkgs.len(),
{
    if pkgs.len() == 0 {
        seq![]
    } else {
        let n = pkgs.len() - 1;
        missing_report(pkgs.drop_last(), fields.take(n)) + if !is_private_spec(pkgs[n]) && missing_spec(fields[n]).len() > 0 {
            seq![(pkgs[n].name, missing_spec(fields[n]))]
        } else {
            seq![]
        }
    }
}

/// The missing-fields findings, given each package's fields.
pub fn missing_fields_issues(packages: &[Package], fields: &[PubspecHealthFields]) -> (r: Vec<MissingFieldsIssue>)
    requires
        fields@.len() == packages@.len(),
    ensures
        r@.map_values(|i: MissingFieldsIssue| missing_issue_view(i)) == missing_report(package_views(packages@), fields@),
{
    let mut out: Vec<MissingFieldsIssue> = Vec::new();
    let mut i: usize = 0;
    while i < packages.len()
        invariant
            i <= packages@.len(),
            fields@.len() == packages@.len(),
            out@.map_values(|x: MissingFieldsIssue| missing_issue_view(x)) == missing_report(
                package_views(packages@).take(i as int),
                fields@.take(i as int),
            ),
        decreases packages@.len() - i,
    {
        assert(package_views(packages@).take(i + 1).drop_last() =~= package_views(packages@).take(i as int));
        assert(fields@.take(i + 1).take(i as int) =~= fields@.take(i as int));
        let ghost before = out@.map_values(|x: MissingFieldsIssue| missing_issue_view(x));
        let p = &packages[i];
        let missing = missing_fields(&fields[i]);
        if !p.is_private() && missing.len() > 0 {
            out.push(MissingFieldsIssue { package: p.name.clone(), missing });
            assert(out@.map_values(|x: MissingFieldsIssue| missing_issue_view(x)) =~= before.push(
                (p.name@, missing_spec(fields@[i as int])),
            ));
        } else {
            assert(before + seq![] =~= before);
        }
        i += 1;
    }
    assert(package_views(packages@).take(packages@.len() as int) =~= package_views(packages@));
    assert(fields@.take(packages@.len() as int) =~= fields@);
    out
}

// ---------------------------------------------------------------------------
// SDK consistency
// ---------------------------------------------------------------------------

/// The SDK constraints of a package's `environment`.
#[derive(Debug, Clone, Default)]
pub struct SdkConstraints {
    pub sdk: Option<String>,
    pub flutter: Option<String>,
}

/// The packages without a Dart SDK constraint, in order.
pub open spec fn missing_sdk_spec(pkgs: Seq<PackageView>, c: Seq<SdkConstraints>) -> Seq<Seq<char>>
    decreases pkgs.len(),
{
    if pkgs.len() == 0 {
        seq![]
    } else {
        let n = pkgs.len() - 1;
        missing_sdk_spec(pkgs.drop_last(), c.take(n)) + if !filled(c[n].sdk) {
            seq![pkgs[n].name]
        } else {
            seq![]
        }
    }
}

/// The (constraint, package) pairs of the packages that give a constraint,
/// the Dart SDK's (`flutter` false) or Flutter's.
pub open spec fn sdk_pairs(pkgs: Seq<PackageView>, c: Seq<SdkConstraints>, flutter: bool) -> Seq<(Seq<char>, Seq<char>)>
    decreases pkgs.len(),
{
    if pkgs.len() == 0 {
        seq![]
    } else {
        let n = pkgs.len() - 1;
        let o = if flutter {
            c[n].flutter
        } else {
            c[n].sdk
        };
        sdk_pairs(pkgs.drop_last(), c.take(n), flutter) + if filled(o) {
            seq![(o.unwrap()@, pkgs[n].name)]
        } else {
            seq![]
        }
    }
}

/// A drift list: the grouped constraints where there is more than one,
/// none otherwise.
pub open spec fn drift_list(p: Seq<(Seq<char>, Seq<char>)>, g: Seq<(Seq<char>, Seq<Seq<char>>)>) -> bool {
    if two_keys(p) {
        grouped(p, g)
    } else {
        g.len() == 0
    }
}

fn sdk_pairs_exec(packages: &[Package], c: &[SdkConstraints], flutter: bool) -> (r: Vec<(String, String)>)
    requires
        c@.len() == packages@.len(),
    ensures
        str_pairs(r@) == sdk_pairs(package_views(packages@), c@, flutter),
{
    let mut out: Vec<(String, String)> = Vec::new();
    let mut i: usize = 0;
    while i < packages.len()
        invariant
            i <= packages@.len(),
            c@.len() == packages@.len(),
            str_pairs(out@) == sdk_pairs(package_views(packages@).take(i as int), c@.take(i as int), flutter),
        decreases packages@.len() - i,
    {
        assert(package_views(packages@).take(i + 1).drop_last() =~= package_views(packages@).take(i as int));
        assert(c@.take(i + 1).take(i as int) =~= c@.take(i as int));
        let ghost before = str_pairs(out@);
        let o = if flutter {
            &c[i].flutter
        } else {
            &c[i].sdk
        };
        if filled_exec(o) {
            let v = o.as_ref().unwrap().clone();
            out.push((v, packages[i].name.clone()));
            assert(str_pairs(out@) =~= before.push((o.unwrap()@, packages@[i as int].name@)));
        } else {
            assert(before + seq![] =~= before);
        }
        i += 1;
    }
    assert(package_views(packages@).take(packages@.len() as int) =~= package_views(packages@));
    assert(c@.take(packages@.len() as int) =~= c@);
    out
}

/// The SDK consistency findings, given each package's SDK constraints: the
/// packages without a Dart SDK constraint, and the Dart and Flutter SDK
/// constraints in use where a kind has more than one.
pub fn sdk_consistency(packages: &[Package], constraints: &[SdkConstraints]) -> (r: SdkConsistencyResult)
    requires
        constraints@.len() == packages@.len(),
    ensures
        views(r.missing_sdk@) == missing_sdk_spec(package_views(packages@), constraints@),
        drift_list(sdk_pairs(package_views(packages@), constraints@, false), usages_view(r.dart_sdk_drift@)),
        drift_list(sdk_pairs(package_views(packages@), constraints@, true), usages_view(r.flutter_sdk_drift@)),
{
    let mut missing: Vec<String> = Vec::new();
    let mut i: usize = 0;
    while i < packages.len()
        invariant
            i <= packages@.len(),
            constraints@.len() == packages@.len(),
            views(missing@) == missing_sdk_spec(package_views(packages@).take(i as int), constraints@.take(i as int)),
        decreases packages@.len() - i,
    {
        assert(package_views(packages@).take(i + 1).drop_last() =~= package_views(packages@).take(i as int));
        assert(constraints@.take(i + 1).take(i as int) =~= constraints@.take(i as int));
        let ghost before = views(missing@);
        if !filled_exec(&constraints[i].sdk) {
            missing.push(packages[i].name.clone());
            assert(views(missing@) =~= before.push(packages@[i as int].name@));
        } else {
            assert(before + seq![] =~= before);
        }
        i += 1;
    }
    assert(package_views(packages@).take(packages@.len() as int) =~= package_views(packages@));
    assert(constraints@.take(packages@.len() as int) =~= constraints@);
    let dart_pairs = sdk_pairs_exec(packages, constraints, false);
    let dart = group_by_key(&dart_pairs);
    let flutter_pairs = sdk_pairs_exec(packages, constraints, true);
    let flutter = group_by_key(&flutter_pairs);
    proof {
        lemma_grouped_two(str_pairs(dart_pairs@), usages_view(dart@));
        lemma_grouped_two(str_pairs(flutter_pairs@), usages_view(flutter@));
    }
    SdkConsistencyResult {
        missing_sdk: missing,
        dart_sdk_drift: if dart.len() > 1 {
            dart
        } else {
            Vec::new()
        },
        flutter_sdk_drift: if flutter.len() > 1 {
            flutter
        } else {
            Vec::new()
        },
    }
}

/// The number of SDK findings: missing constraints, Dart drift and Flutter
/// drift each count once.
pub fn sdk_issue_count(r: &SdkConsistencyResult) -> (n: usize)
    ensures
        n == (if r.missing_sdk@.len() > 0 {
            1int
        } else {
            0
        }) + (if r.dart_sdk_drift@.len() > 0 {
            1int
        } else {
            0
        }) + (if r.flutter_sdk_drift@.len() > 0 {
            1int
        } else {
            0
        }),
{
    let mut n: usize = 0;
    if r.missing_sdk.len() > 0 {
        n += 1;
    }
    if r.dart_sdk_drift.len() > 0 {
        n += 1;
    }
    if r.flutter_sdk_drift.len() > 0 {
        n += 1;
    }
    n
}

} // verus!

verus! {

proof fn lemma_pair_uses_external(dv: Seq<(Seq<char>, Seq<char>)>, name: Seq<char>, members: Seq<Seq<char>>)
    ensures
        forall|k: int| 0 <= k < pair_uses(dv, name, members).len() ==> !members.contains(#[trigger] pair_uses(dv, name, members)[k].0),
    decreases dv.len(),
{
    if dv.len() > 0 {
        lemma_pair_uses_external(dv.drop_last(), name, members);
        let r = pair_uses(dv.drop_last(), name, members);
        assert forall|k: int| 0 <= k < pair_uses(dv, name, members).len() implies !members.contains(#[trigger] pair_uses(dv, name, members)[k].0) by {
            if k < r.len() {
                assert(pair_uses(dv, name, members)[k] == r[k]);
            }
        }
    }
}

proof fn lemma_all_uses_external(pkgs: Seq<PackageView>, members: Seq<Seq<char>>)
    ensures
        forall|k: int| 0 <= k < all_uses(pkgs, members).len() ==> !members.contains(#[trigger] all_uses(pkgs, members)[k].0),
    decreases pkgs.len(),
{
    if pkgs.len() > 0 {
        lemma_all_uses_external(pkgs.drop_last(), members);
        lemma_pair_uses_external(pkgs.last().dependency_versions, pkgs.last().name, members);
        let r = all_uses(pkgs.drop_last(), members);
        let t = pair_uses(pkgs.last().dependency_versions, pkgs.last().name, members);
        assert forall|k: int| 0 <= k < all_uses(pkgs, members).len() implies !members.contains(#[trigger] all_uses(pkgs, members)[k].0) by {
            if k < r.len() {
                assert(all_uses(pkgs, members)[k] == r[k]);
            } else {
                assert(all_uses(pkgs, members)[k] == t[k - r.len()]);
            }
        }
    }
}

/// A drifting dependency is never one of the workspace's own packages:
/// constraints between sibling packages are not drift.
pub proof fn lemma_drift_skips_workspace_packages(pkgs: Seq<PackageView>, d: Seq<char>)
    requires
        drifting(drift_uses(pkgs), d),
    ensures
        !member_names(pkgs).contains(d),
{
    let u = drift_uses(pkgs);
    lemma_all_uses_external(pkgs, member_names(pkgs));
    let (i, j) = choose|i: int, j: int|
        0 <= i < uses_of(u, d).len() && 0 <= j < uses_of(u, d).len() && #[trigger] uses_of(u, d)[i].0
            != #[trigger] uses_of(u, d)[j].0;
    lemma_uses_of_member(u, d);
    let m = u.map_values(|x: (Seq<char>, (Seq<char>, Seq<char>))| x.0);
    let k = choose|k: int| 0 <= k < m.len() && m[k] == d;
    assert(u[k].0 == d);
}

} // verus!
