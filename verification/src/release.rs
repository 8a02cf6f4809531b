//! Planning a release: the settings of the `version` command, which
//! packages get a new version and to what, and which dependents follow.
use vstd::prelude::*;
use crate::commands::VersionArgs;
use crate::config::{VersionCommandConfig, flag_or};
use crate::package::{Package, PackageView, package_views};
use crate::text::{
    append_str, contains, contains_chars, first_index_of, from_chars, lemma_first_index_at, lemma_first_index_of, str_eq,
    to_chars, trim, trim_chars, views,
};
use crate::version::{
    BumpType, ConventionalCommit, SemVer, VersionError, VersionErrorView, VersionParts, before_plus,
    before_plus_exec, bump_name, compute_next_prerelease, compute_next_version, graduate_version,
    highest_bump, highest_bump_spec, is_prerelease, is_prerelease_spec, lenient_version,
    next_prerelease_spec, next_version_spec, parse_semver, semver_parse, sv, version_text,
};

verus! {

// ---------------------------------------------------------------------------
// Settings
// ---------------------------------------------------------------------------

/// What the `version` command does besides setting versions.
#[derive(Debug, Clone, Copy, PartialEq, Eq, Structural)]
pub struct VersionSettings {
    /// Whether changelogs are written.
    pub should_changelog: bool,
    /// Whether each release is tagged.
    pub should_tag: bool,
    /// Whether changelog entries carry the commit body.
    pub include_body: bool,
    /// Whether changelog entries carry the commit hash.
    pub include_hash: bool,
    /// Whether changelog entries show scopes.
    pub include_scopes: bool,
    /// Whether all packages share one version.
    pub is_coordinated: bool,
}

/// The settings from the flags and the configuration: a `--no-...` flag
/// turns changelogs or tags off, the configuration decides otherwise (on by
/// default); bodies and hashes are off unless configured (`linkToCommits`
/// stands in for an unset commit id setting); scopes are on unless
/// configured off; `--coordinated` or the configuration make versions
/// shared.
pub open spec fn settings_spec(args: VersionArgs, cfg: Option<VersionCommandConfig>) -> VersionSettings {
    let cc = match cfg {
        Some(c) => c.changelog_config,
        None => None,
    };
    VersionSettings {
        should_changelog: !args.no_changelog && match cfg {
            Some(c) => flag_or(c.changelog, true),
            None => true,
        },
        should_tag: !args.no_git_tag && match cfg {
            Some(c) => flag_or(c.tag_release, true),
            None => true,
        },
        include_body: match cc {
            Some(x) => flag_or(x.include_commit_body, false),
            None => false,
        },
        include_hash: match cc {
            Some(x) => match x.include_commit_id {
                Some(b) => b,
                None => match cfg {
                    Some(c) => flag_or(c.link_to_commits, false),
                    None => false,
                },
            },
            None => match cfg {
                Some(c) => flag_or(c.link_to_commits, false),
                None => false,
            },
        },
        include_scopes: match cfg {
            Some(c) => flag_or(c.include_scopes, true),
            None => true,
        },
        is_coordinated: args.coordinated || match cfg {
            Some(c) => flag_or(c.coordinated, false),
            None => false,
        },
    }
}

fn or_default(o: Option<bool>, d: bool) -> (r: bool)
    ensures
        r == flag_or(o, d),
{
    match o {
        Some(b) => b,
        None => d,
    }
}

/// The settings of a `version` run.
pub fn version_settings(args: &VersionArgs, cfg: Option<&VersionCommandConfig>) -> (r: VersionSettings)
    ensures
        r == settings_spec(
            *args,
            match cfg {
                Some(c) => Some(*c),
                None => None,
            },
        ),
{
    let should_changelog = !args.no_changelog && match cfg {
        Some(c) => c.should_changelog(),
        None => true,
    };
    let should_tag = !args.no_git_tag && match cfg {
        Some(c) => c.should_tag(),
        None => true,
    };
    let link = match cfg {
        Some(c) => or_default(c.link_to_commits, false),
        None => false,
    };
    let (include_body, include_hash) = match cfg {
        Some(c) => match &c.changelog_config {
            Some(x) => (
                or_default(x.include_commit_body, false),
                match x.include_commit_id {
                    Some(b) => b,
                    None => link,
                },
            ),
            None => (false, link),
        },
        None => (false, false),
    };
    let include_scopes = match cfg {
        Some(c) => or_default(c.include_scopes, true),
        None => true,
    };
    let is_coordinated = args.coordinated || match cfg {
        Some(c) => c.is_coordinated(),
        None => false,
    };
    VersionSettings { should_changelog, should_tag, include_body, include_hash, include_scopes, is_coordinated }
}

// ---------------------------------------------------------------------------
// The plan
// ---------------------------------------------------------------------------

/// The version text a package has now (`0.0.0` where it has none).
pub open spec fn current_of(p: PackageView) -> Seq<char> {
    match p.version {
        Some(v) => v,
        None => "0.0.0"@,
    }
}

/// A version read as semver reads it, or without its `+` suffix.
pub open spec fn loose_parse(s: Seq<char>) -> Option<VersionParts> {
    match semver_parse(s) {
        Some(t) => Some(t),
        None => semver_parse(before_plus(s)),
    }
}

/// What the plan says.
pub enum VersionPlan {
    /// Graduation was asked for, and no package is a prerelease.
    NoPrereleases,
    /// No way of choosing packages was given.
    NothingSelected,
    /// The packages (by position) and each one's target: a bump keyword or
    /// an explicit version.
    Targets(Vec<(usize, String)>),
}

pub enum PlanView {
    NoPrereleases,
    NothingSelected,
    Targets(Seq<(usize, Seq<char>)>),
}

pub open spec fn targets_view(v: Seq<(usize, String)>) -> Seq<(usize, Seq<char>)> {
    v.map_values(|t: (usize, String)| (t.0, t.1@))
}

pub open spec fn plan_view(p: VersionPlan) -> PlanView {
    match p {
        VersionPlan::NoPrereleases => PlanView::NoPrereleases,
        VersionPlan::NothingSelected => PlanView::NothingSelected,
        VersionPlan::Targets(t) => PlanView::Targets(targets_view(t@)),
    }
}

/// The text of a next prerelease, or `fallback` where there is none.
pub open spec fn prerelease_or(current: Seq<char>, bump: Seq<char>, preid: Seq<char>, fallback: Seq<char>) -> Seq<char> {
    match next_prerelease_spec(current, bump, preid) {
        Ok(v) => version_text(v),
        Err(_) => fallback,
    }
}

/// Graduation: each prerelease package, in order, to its stable version.
pub open spec fn graduate_targets(pkgs: Seq<PackageView>) -> Seq<(usize, Seq<char>)>
    decreases pkgs.len(),
{
    if pkgs.len() == 0 {
        seq![]
    } else {
        let n = pkgs.len() - 1;
        let cur = current_of(pkgs[n]);
        let t = lenient_version(cur);
        graduate_targets(pkgs.drop_last()) + if is_prerelease_spec(cur) {
            seq![(n as usize, version_text((t.0, t.1, t.2, Seq::empty(), Seq::empty())))]
        } else {
            seq![]
        }
    }
}

/// Whether version numbers `a` come before `b`.
pub open spec fn triple_lt(a: (u64, u64, u64), b: (u64, u64, u64)) -> bool {
    a.0 < b.0 || (a.0 == b.0 && a.1 < b.1) || (a.0 == b.0 && a.1 == b.1 && a.2 < b.2)
}

/// The highest version numbers among the packages' versions that can be
/// read (zeros where none can).
pub open spec fn highest_numbers(pkgs: Seq<PackageView>) -> (u64, u64, u64)
    decreases pkgs.len(),
{
    if pkgs.len() == 0 {
        (0, 0, 0)
    } else {
        let rest = highest_numbers(pkgs.drop_last());
        match loose_parse(current_of(pkgs.last())) {
            Some(t) => if triple_lt(rest, (t.0, t.1, t.2)) {
                (t.0, t.1, t.2)
            } else {
                rest
            },
            None => rest,
        }
    }
}

/// Every package to one target.
pub open spec fn all_to(n: nat, target: Seq<char>) -> Seq<(usize, Seq<char>)> {
    Seq::new(n, |i: int| (i as usize, target))
}

/// The first package, at or after `i`, whose name holds `name`.
pub open spec fn first_holding(pkgs: Seq<PackageView>, name: Seq<char>, i: int) -> int
    decreases pkgs.len() - i,
{
    if i < 0 || i >= pkgs.len() {
        pkgs.len() as int
    } else if contains(pkgs[i].name, name) {
        i
    } else {
        first_holding(pkgs, name, i + 1)
    }
}

/// Overrides: for each `name=bump`, in order, the first package whose name
/// holds the name, to the bump (or, for a prerelease, the next prerelease
/// from that bump where there is one).
pub open spec fn override_targets(
    pkgs: Seq<PackageView>,
    overrides: Seq<(Seq<char>, Seq<char>)>,
    prerelease: bool,
    preid: Seq<char>,
) -> Seq<(usize, Seq<char>)>
    decreases overrides.len(),
{
    if overrides.len() == 0 {
        seq![]
    } else {
        let o = overrides.last();
        let j = first_holding(pkgs, o.0, 0);
        override_targets(pkgs, overrides.drop_last(), prerelease, preid) + if j < pkgs.len() {
            seq![
                (j as usize, if prerelease {
                    prerelease_or(current_of(pkgs[j]), o.1, preid, o.1)
                } else {
                    o.1
                }),
            ]
        } else {
            seq![]
        }
    }
}

pub open spec fn commit_groups_view(m: Seq<(String, Vec<ConventionalCommit>)>) -> Seq<(Seq<char>, Seq<ConventionalCommit>)> {
    m.map_values(|g: (String, Vec<ConventionalCommit>)| (g.0@, g.1@))
}

/// The commits grouped under `name`, where a group has that name.
pub open spec fn commits_of(m: Seq<(Seq<char>, Seq<ConventionalCommit>)>, name: Seq<char>) -> Option<Seq<ConventionalCommit>>
    decreases m.len(),
{
    if m.len() == 0 {
        None
    } else if m[0].0 == name {
        Some(m[0].1)
    } else {
        commits_of(m.drop_first(), name)
    }
}

/// Conventional commits: each package with commits that call for a bump,
/// to the highest such bump (or the next prerelease from it).
pub open spec fn commit_targets(
    pkgs: Seq<PackageView>,
    m: Seq<(Seq<char>, Seq<ConventionalCommit>)>,
    prerelease: bool,
    preid: Seq<char>,
) -> Seq<(usize, Seq<char>)>
    decreases pkgs.len(),
{
    if pkgs.len() == 0 {
        seq![]
    } else {
        let n = pkgs.len() - 1;
        let p = pkgs[n];
        commit_targets(pkgs.drop_last(), m, prerelease, preid) + match commits_of(m, p.name) {
            Some(cs) => {
                let b = highest_bump_spec(cs);
                if b == BumpType::NoBump {
                    seq![]
                } else if prerelease {
                    seq![(n as usize, prerelease_or(current_of(p), bump_name(b), preid, bump_name(b)))]
                } else {
                    seq![(n as usize, bump_name(b))]
                }
            },
            None => seq![],
        }
    }
}

/// `--all`: every package to the bump (or its next prerelease).
pub open spec fn all_targets(pkgs: Seq<PackageView>, bump: Seq<char>, prerelease: bool, preid: Seq<char>) -> Seq<
    (usize, Seq<char>),
>
    decreases pkgs.len(),
{
    if pkgs.len() == 0 {
        seq![]
    } else {
        let n = pkgs.len() - 1;
        all_targets(pkgs.drop_last(), bump, prerelease, preid) + seq![
            (n as usize, if prerelease {
                prerelease_or(current_of(pkgs[n]), bump, preid, bump)
            } else {
                bump
            }),
        ]
    }
}

pub open spec fn override_views(v: Seq<(String, String)>) -> Seq<(Seq<char>, Seq<char>)> {
    v.map_values(|o: (String, String)| (o.0@, o.1@))
}

/// The plan of a `version` run. The first mode that applies decides:
/// graduation, coordinated versions (every package to the next version
/// after the highest current one), overrides, conventional commits, and
/// `--all`.
pub open spec fn plan_spec(
    pkgs: Seq<PackageView>,
    args: VersionArgs,
    is_coordinated: bool,
    commits: Option<Seq<(Seq<char>, Seq<ConventionalCommit>)>>,
) -> Result<PlanView, VersionErrorView> {
    if args.graduate {
        let t = graduate_targets(pkgs);
        if t.len() == 0 {
            Ok(PlanView::NoPrereleases)
        } else {
            Ok(PlanView::Targets(t))
        }
    } else if is_coordinated {
        let h = highest_numbers(pkgs);
        let base = version_text((h.0, h.1, h.2, Seq::empty(), Seq::empty()));
        let next = if args.prerelease {
            next_prerelease_spec(base, args.bump@, args.preid@)
        } else {
            next_version_spec(base, args.bump@)
        };
        match next {
            Ok(v) => Ok(PlanView::Targets(all_to(pkgs.len(), version_text(v)))),
            Err(e) => Err(e),
        }
    } else if args.overrides@.len() > 0 {
        Ok(PlanView::Targets(override_targets(pkgs, override_views(args.overrides@), args.prerelease, args.preid@)))
    } else if args.conventional_commits {
        Ok(PlanView::Targets(commit_targets(pkgs, commits.unwrap(), args.prerelease, args.preid@)))
    } else if args.all {
        Ok(PlanView::Targets(all_targets(pkgs, args.bump@, args.prerelease, args.preid@)))
    } else {
        Ok(PlanView::NothingSelected)
    }
}

/// The version text of a package (`0.0.0` where it has none).
fn current_text(p: &Package) -> (r: String)
    ensures
        r@ == current_of(p@),
{
    match &p.version {
        Some(v) => v.clone(),
        None => "0.0.0".to_owned(),
    }
}

/// The next prerelease as text, or `fallback` where there is none.
fn prerelease_text_or(current: &str, bump: &str, preid: &str, fallback: &str) -> (r: String)
    ensures
        r@ == prerelease_or(current@, bump@, preid@, fallback@),
{
    match compute_next_prerelease(current, bump, preid) {
        Ok(v) => v.to_text(),
        Err(_) => fallback.to_owned(),
    }
}

/// Reads a version as semver does, or without its `+` suffix.
pub(crate) fn parse_loose(s: &str) -> (r: Option<SemVer>)
    ensures
        match r {
            Some(v) => loose_parse(s@) == Some(sv(v)),
            None => loose_parse(s@) is None,
        },
{
    match parse_semver(s) {
        Some(v) => Some(v),
        None => {
            let b = before_plus_exec(s);
            parse_semver(b.as_str())
        },
    }
}

proof fn lemma_views_take(pkgs: Seq<Package>, i: int)
    requires
        0 <= i < pkgs.len(),
    ensures
        package_views(pkgs).take(i + 1).drop_last() == package_views(pkgs).take(i),
        package_views(pkgs).take(i + 1).last() == pkgs[i]@,
        package_views(pkgs).take(i + 1).len() == i + 1,
{
    assert(package_views(pkgs).take(i + 1).drop_last() =~= package_views(pkgs).take(i));
}

fn graduate_plan(pkgs: &[Package]) -> (r: Vec<(usize, String)>)
    ensures
        targets_view(r@) == graduate_targets(package_views(pkgs@)),
{
    let mut out: Vec<(usize, String)> = Vec::new();
    let mut i: usize = 0;
    while i < pkgs.len()
        invariant
            i <= pkgs@.len(),
            targets_view(out@) == graduate_targets(package_views(pkgs@).take(i as int)),
        decreases pkgs@.len() - i,
    {
        proof {
            lemma_views_take(pkgs@, i as int);
        }
        let cur = current_text(&pkgs[i]);
        let ghost before = targets_view(out@);
        if is_prerelease(cur.as_str()) {
            let stable = match graduate_version(cur.as_str()) {
                Ok(v) => v.to_text(),
                Err(_) => cur.clone(),
            };
            out.push((i, stable));
            assert(targets_view(out@) =~= before.push(targets_view(out@).last()));
        } else {
            assert(before + seq![] =~= before);
        }
        i += 1;
    }
    assert(package_views(pkgs@).take(pkgs@.len() as int) =~= package_views(pkgs@));
    out
}

fn highest_numbers_exec(pkgs: &[Package]) -> (r: (u64, u64, u64))
    ensures
        r == highest_numbers(package_views(pkgs@)),
{
    let mut best: (u64, u64, u64) = (0, 0, 0);
    let mut i: usize = 0;
    while i < pkgs.len()
        invariant
            i <= pkgs@.len(),
            best == highest_numbers(package_views(pkgs@).take(i as int)),
        decreases pkgs@.len() - i,
    {
        proof {
            lemma_views_take(pkgs@, i as int);
        }
        let cur = current_text(&pkgs[i]);
        match parse_loose(cur.as_str()) {
            Some(v) => {
                if best.0 < v.major || (best.0 == v.major && best.1 < v.minor) || (best.0 == v.major && best.1
                    == v.minor && best.2 < v.patch) {
                    best = (v.major, v.minor, v.patch);
                }
            },
            None => {},
        }
        i += 1;
    }
    assert(package_views(pkgs@).take(pkgs@.len() as int) =~= package_views(pkgs@));
    best
}

/// The position of the first package whose name holds `name`.
fn first_holding_exec(pkgs: &[Package], name: &str) -> (r: usize)
    ensures
        r == first_holding(package_views(pkgs@), name@, 0),
{
    let pat = to_chars(name);
    let mut j: usize = 0;
    while j < pkgs.len()
        invariant
            j <= pkgs@.len(),
            pat@ == name@,
            first_holding(package_views(pkgs@), name@, 0) == first_holding(package_views(pkgs@), name@, j as int),
        decreases pkgs@.len() - j,
    {
        let nm = to_chars(pkgs[j].name.as_str());
        if contains_chars(nm.as_slice(), pat.as_slice()) {
            return j;
        }
        j += 1;
    }
    j
}

fn override_plan(pkgs: &[Package], overrides: &Vec<(String, String)>, prerelease: bool, preid: &str) -> (r: Vec<
    (usize, String),
>)
    ensures
        targets_view(r@) == override_targets(package_views(pkgs@), override_views(overrides@), prerelease, preid@),
{
    let mut out: Vec<(usize, String)> = Vec::new();
    let mut k: usize = 0;
    while k < overrides.len()
        invariant
            k <= overrides@.len(),
            targets_view(out@) == override_targets(
                package_views(pkgs@),
                override_views(overrides@).take(k as int),
                prerelease,
                preid@,
            ),
        decreases overrides@.len() - k,
    {
        assert(override_views(overrides@).take(k + 1).drop_last() =~= override_views(overrides@).take(k as int));
        let name = &overrides[k].0;
        let bump = &overrides[k].1;
        let j = first_holding_exec(pkgs, name.as_str());
        let ghost before = targets_view(out@);
        if j < pkgs.len() {
            let target = if prerelease {
                let cur = current_text(&pkgs[j]);
                prerelease_text_or(cur.as_str(), bump.as_str(), preid, bump.as_str())
            } else {
                bump.clone()
            };
            out.push((j, target));
            assert(targets_view(out@) =~= before.push(targets_view(out@).last()));
        } else {
            assert(before + seq![] =~= before);
        }
        k += 1;
    }
    assert(override_views(overrides@).take(overrides@.len() as int) =~= override_views(overrides@));
    out
}

/// The position of the commit group named `name`.
fn find_commits(m: &Vec<(String, Vec<ConventionalCommit>)>, name: &str) -> (r: Option<usize>)
    ensures
        match r {
            Some(k) => k < m@.len() && commits_of(commit_groups_view(m@), name@) == Some(m@[k as int].1@),
            None => commits_of(commit_groups_view(m@), name@) is None,
        },
{
    let mut k: usize = 0;
    assert(commit_groups_view(m@).skip(0) =~= commit_groups_view(m@));
    while k < m.len()
        invariant
            k <= m@.len(),
            commits_of(commit_groups_view(m@), name@) == commits_of(commit_groups_view(m@).skip(k as int), name@),
        decreases m@.len() - k,
    {
        assert(commit_groups_view(m@).skip(k as int).drop_first() =~= commit_groups_view(m@).skip(k + 1));
        if str_eq(m[k].0.as_str(), name) {
            return Some(k);
        }
        k += 1;
    }
    None
}

fn commit_plan(
    pkgs: &[Package],
    m: &Vec<(String, Vec<ConventionalCommit>)>,
    prerelease: bool,
    preid: &str,
) -> (r: Vec<(usize, String)>)
    ensures
        targets_view(r@) == commit_targets(package_views(pkgs@), commit_groups_view(m@), prerelease, preid@),
{
    let mut out: Vec<(usize, String)> = Vec::new();
    let mut i: usize = 0;
    while i < pkgs.len()
        invariant
            i <= pkgs@.len(),
            targets_view(out@) == commit_targets(
                package_views(pkgs@).take(i as int),
                commit_groups_view(m@),
                prerelease,
                preid@,
            ),
        decreases pkgs@.len() - i,
    {
        proof {
            lemma_views_take(pkgs@, i as int);
        }
        let ghost before = targets_view(out@);
        match find_commits(m, pkgs[i].name.as_str()) {
            Some(k) => {
                let b = highest_bump(m[k].1.as_slice());
                match b {
                    BumpType::NoBump => {
                        assert(before + seq![] =~= before);
                    },
                    _ => {
                        let bn = b.as_str();
                        let target = if prerelease {
                            let cur = current_text(&pkgs[i]);
                            prerelease_text_or(cur.as_str(), bn, preid, bn)
                        } else {
                            bn.to_owned()
                        };
                        out.push((i, target));
                        assert(targets_view(out@) =~= before.push(targets_view(out@).last()));
                    },
                }
            },
            None => {
                assert(before + seq![] =~= before);
            },
        }
        i += 1;
    }
    assert(package_views(pkgs@).take(pkgs@.len() as int) =~= package_views(pkgs@));
    out
}

fn all_plan(pkgs: &[Package], bump: &str, prerelease: bool, preid: &str) -> (r: Vec<(usize, String)>)
    ensures
        targets_view(r@) == all_targets(package_views(pkgs@), bump@, prerelease, preid@),
{
    let mut out: Vec<(usize, String)> = Vec::new();
    let mut i: usize = 0;
    while i < pkgs.len()
        invariant
            i <= pkgs@.len(),
            targets_view(out@) == all_targets(package_views(pkgs@).take(i as int), bump@, prerelease, preid@),
        decreases pkgs@.len() - i,
    {
        proof {
            lemma_views_take(pkgs@, i as int);
        }
        let ghost before = targets_view(out@);
        let target = if prerelease {
            let cur = current_text(&pkgs[i]);
            prerelease_text_or(cur.as_str(), bump, preid, bump)
        } else {
            bump.to_owned()
        };
        out.push((i, target));
        assert(targets_view(out@) =~= before.push(targets_view(out@).last()));
        i += 1;
    }
    assert(package_views(pkgs@).take(pkgs@.len() as int) =~= package_views(pkgs@));
    out
}

/// Decides which packages a `version` run changes and to what target; the
/// commits grouped by package are needed for `--conventional-commits`.
pub fn plan_versions(
    packages: &[Package],
    args: &VersionArgs,
    is_coordinated: bool,
    commits: Option<&Vec<(String, Vec<ConventionalCommit>)>>,
) -> (r: Result<VersionPlan, VersionError>)
    requires
        args.conventional_commits ==> commits is Some,
    ensures
        match r {
            Ok(p) => plan_spec(
                package_views(packages@),
                *args,
                is_coordinated,
                match commits {
                    Some(m) => Some(commit_groups_view(m@)),
                    None => None,
                },
            ) == Ok::<PlanView, VersionErrorView>(plan_view(p)),
            Err(e) => plan_spec(
                package_views(packages@),
                *args,
                is_coordinated,
                match commits {
                    Some(m) => Some(commit_groups_view(m@)),
                    None => None,
                },
            ) == Err::<PlanView, VersionErrorView>(e@),
        },
{
    if args.graduate {
        let t = graduate_plan(packages);
        if t.len() == 0 {
            return Ok(VersionPlan::NoPrereleases);
        }
        return Ok(VersionPlan::Targets(t));
    }
    if is_coordinated {
        let h = highest_numbers_exec(packages);
        let base = SemVer { major: h.0, minor: h.1, patch: h.2, pre: String::new(), build: String::new() };
        let base_text = base.to_text();
        let next = if args.prerelease {
            compute_next_prerelease(base_text.as_str(), args.bump.as_str(), args.preid.as_str())
        } else {
            compute_next_version(base_text.as_str(), args.bump.as_str())
        };
        let explicit = match next {
            Ok(v) => v.to_text(),
            Err(e) => return Err(e),
        };
        let mut out: Vec<(usize, String)> = Vec::new();
        let mut i: usize = 0;
        while i < packages.len()
            invariant
                i <= packages@.len(),
                targets_view(out@) == all_to(i as nat, explicit@),
            decreases packages@.len() - i,
        {
            let ghost before = targets_view(out@);
            out.push((i, explicit.clone()));
            assert(targets_view(out@) =~= before.push((i, explicit@)));
            assert(all_to((i + 1) as nat, explicit@) =~= all_to(i as nat, explicit@).push((i, explicit@)));
            i += 1;
        }
        return Ok(VersionPlan::Targets(out));
    }
    if args.overrides.len() > 0 {
        return Ok(VersionPlan::Targets(override_plan(packages, &args.overrides, args.prerelease, args.preid.as_str())));
    }
    if args.conventional_commits {
        match commits {
            Some(m) => {
                return Ok(VersionPlan::Targets(commit_plan(packages, m, args.prerelease, args.preid.as_str())));
            },
            None => {},
        }
    }
    if args.all {
        return Ok(VersionPlan::Targets(all_plan(packages, args.bump.as_str(), args.prerelease, args.preid.as_str())));
    }
    Ok(VersionPlan::NothingSelected)
}

// ---------------------------------------------------------------------------
// Dependents
// ---------------------------------------------------------------------------

pub open spec fn pairs_view(v: Seq<(String, String)>) -> Seq<(Seq<char>, Seq<char>)> {
    v.map_values(|t: (String, String)| (t.0@, t.1@))
}

/// The new version of `name` among the bumped packages (the last entry for
/// a name counts, as in a map built from the list).
pub open spec fn bumped_version(versioned: Seq<(Seq<char>, Seq<char>)>, name: Seq<char>) -> Option<Seq<char>>
    decreases versioned.len(),
{
    if versioned.len() == 0 {
        None
    } else if versioned.last().0 == name {
        Some(versioned.last().1)
    } else {
        bumped_version(versioned.drop_last(), name)
    }
}

/// For package `i` with dependency names `deps`, in order, each bumped
/// dependency with its new version.
pub open spec fn updates_in(deps: Seq<Seq<char>>, i: usize, versioned: Seq<(Seq<char>, Seq<char>)>) -> Seq<
    (usize, Seq<char>, Seq<char>),
>
    decreases deps.len(),
{
    if deps.len() == 0 {
        seq![]
    } else {
        updates_in(deps.drop_last(), i, versioned) + match bumped_version(versioned, deps.last()) {
            Some(v) => seq![(i, deps.last(), v)],
            None => seq![],
        }
    }
}

/// The dependency constraints to update after a release: for each package
/// that was not bumped itself, in order, its dependencies and then its dev
/// dependencies that were, with their new versions.
pub open spec fn dependency_updates_spec(pkgs: Seq<PackageView>, versioned: Seq<(Seq<char>, Seq<char>)>) -> Seq<
    (usize, Seq<char>, Seq<char>),
>
    decreases pkgs.len(),
{
    if pkgs.len() == 0 {
        seq![]
    } else {
        let n = pkgs.len() - 1;
        let p = pkgs[n];
        dependency_updates_spec(pkgs.drop_last(), versioned) + if bumped_version(versioned, p.name) is Some {
            seq![]
        } else {
            updates_in(p.dependencies + p.dev_dependencies, n as usize, versioned)
        }
    }
}

pub open spec fn updates_view(v: Seq<(usize, String, String)>) -> Seq<(usize, Seq<char>, Seq<char>)> {
    v.map_values(|t: (usize, String, String)| (t.0, t.1@, t.2@))
}

fn bumped_version_exec(versioned: &[(String, String)], name: &str) -> (r: Option<String>)
    ensures
        opt_string(r) == bumped_version(pairs_view(versioned@), name@),
{
    let mut k = versioned.len();
    assert(pairs_view(versioned@).take(k as int) =~= pairs_view(versioned@));
    while k > 0
        invariant
            k <= versioned@.len(),
            bumped_version(pairs_view(versioned@), name@) == bumped_version(pairs_view(versioned@).take(k as int), name@),
        decreases k,
    {
        assert(pairs_view(versioned@).take(k as int).drop_last() =~= pairs_view(versioned@).take(k - 1));
        if str_eq(versioned[k - 1].0.as_str(), name) {
            return Some(versioned[k - 1].1.clone());
        }
        k -= 1;
    }
    None
}

pub open spec fn opt_string(o: Option<String>) -> Option<Seq<char>> {
    match o {
        Some(s) => Some(s@),
        None => None,
    }
}

fn push_updates(out: &mut Vec<(usize, String, String)>, deps: &Vec<String>, i: usize, versioned: &[(String, String)])
    ensures
        updates_view(final(out)@) == updates_view(old(out)@) + updates_in(views(deps@), i, pairs_view(versioned@)),
{
    let ghost start = updates_view(out@);
    let mut k: usize = 0;
    while k < deps.len()
        invariant
            k <= deps@.len(),
            updates_view(out@) == start + updates_in(views(deps@).take(k as int), i, pairs_view(versioned@)),
        decreases deps@.len() - k,
    {
        assert(views(deps@).take(k + 1).drop_last() =~= views(deps@).take(k as int));
        assert(views(deps@).take(k + 1).last() == deps@[k as int]@);
        let ghost before = updates_view(out@);
        match bumped_version_exec(versioned, deps[k].as_str()) {
            Some(v) => {
                out.push((i, deps[k].clone(), v));
                assert(updates_view(out@) =~= before.push(updates_view(out@).last()));
                assert(updates_view(out@) =~= start + updates_in(views(deps@).take(k + 1), i, pairs_view(versioned@)));
            },
            None => {
                assert(updates_view(out@) =~= start + updates_in(views(deps@).take(k + 1), i, pairs_view(versioned@)));
            },
        }
        k += 1;
    }
    assert(views(deps@).take(deps@.len() as int) =~= views(deps@));
}

proof fn lemma_updates_in_append(a: Seq<Seq<char>>, b: Seq<Seq<char>>, i: usize, versioned: Seq<(Seq<char>, Seq<char>)>)
    ensures
        updates_in(a + b, i, versioned) == updates_in(a, i, versioned) + updates_in(b, i, versioned),
    decreases b.len(),
{
    if b.len() == 0 {
        assert(a + b =~= a);
    } else {
        lemma_updates_in_append(a, b.drop_last(), i, versioned);
        assert((a + b).drop_last() =~= a + b.drop_last());
    }
}

/// The dependency constraints to update after a release.
pub fn dependency_updates(packages: &[Package], versioned: &[(String, String)]) -> (r: Vec<(usize, String, String)>)
    ensures
        updates_view(r@) == dependency_updates_spec(package_views(packages@), pairs_view(versioned@)),
{
    let mut out: Vec<(usize, String, String)> = Vec::new();
    let mut i: usize = 0;
    while i < packages.len()
        invariant
            i <= packages@.len(),
            updates_view(out@) == dependency_updates_spec(package_views(packages@).take(i as int), pairs_view(versioned@)),
        decreases packages@.len() - i,
    {
        proof {
            lemma_views_take(packages@, i as int);
        }
        let p = &packages[i];
        let ghost before = updates_view(out@);
        match bumped_version_exec(versioned, p.name.as_str()) {
            Some(_) => {
                assert(before + seq![] =~= before);
            },
            None => {
                push_updates(&mut out, &p.dependencies, i, versioned);
                push_updates(&mut out, &p.dev_dependencies, i, versioned);
                proof {
                    lemma_updates_in_append(p@.dependencies, p@.dev_dependencies, i, pairs_view(versioned@));
                }
                assert(updates_view(out@) =~= before + updates_in(
                    p@.dependencies + p@.dev_dependencies,
                    i,
                    pairs_view(versioned@),
                ));
            },
        }
        i += 1;
    }
    assert(package_views(packages@).take(packages@.len() as int) =~= package_views(packages@));
    out
}

/// The target of a dependent whose constraints were updated: a patch bump,
/// or for a prerelease run the next prerelease after a patch bump (with the
/// dependents' own identifier where one is given), `patch` where there is
/// none.
pub open spec fn dependent_target_spec(current: Seq<char>, prerelease: bool, preid: Seq<char>, dependent_preid: Option<Seq<char>>) -> Seq<char> {
    if prerelease {
        let id = match dependent_preid {
            Some(d) => d,
            None => preid,
        };
        prerelease_or(current, "patch"@, id, "patch"@)
    } else {
        "patch"@
    }
}

/// The version target of a dependent package.
pub fn dependent_target(current: &str, prerelease: bool, preid: &str, dependent_preid: Option<&str>) -> (r: String)
    ensures
        r@ == dependent_target_spec(current@, prerelease, preid@, crate::config::opt_chars(dependent_preid)),
{
    if prerelease {
        let id = match dependent_preid {
            Some(d) => d,
            None => preid,
        };
        prerelease_text_or(current, "patch", id, "patch")
    } else {
        "patch".to_owned()
    }
}

} // verus!

verus! {

// ---------------------------------------------------------------------------
// Laws
// ---------------------------------------------------------------------------

/// Whether every target names a package of `pkgs`.
pub open spec fn targets_in_range(t: Seq<(usize, Seq<char>)>, n: nat) -> bool {
    forall|k: int| 0 <= k < t.len() ==> (#[trigger] t[k]).0 < n
}

proof fn lemma_graduate_in_range(pkgs: Seq<PackageView>)
    ensures
        targets_in_range(graduate_targets(pkgs), pkgs.len()),
    decreases pkgs.len(),
{
    if pkgs.len() > 0 {
        lemma_graduate_in_range(pkgs.drop_last());
        let r = graduate_targets(pkgs.drop_last());
        assert forall|k: int| 0 <= k < graduate_targets(pkgs).len() implies (#[trigger] graduate_targets(pkgs)[k]).0 < pkgs.len() by {
            if k < r.len() {
                assert(graduate_targets(pkgs)[k] == r[k]);
            }
        }
    }
}

proof fn lemma_first_holding_bound(pkgs: Seq<PackageView>, name: Seq<char>, i: int)
    requires
        0 <= i,
    ensures
        i <= pkgs.len() ==> i <= first_holding(pkgs, name, i),
        first_holding(pkgs, name, i) <= pkgs.len(),
    decreases pkgs.len() - i,
{
    if i < pkgs.len() && !contains(pkgs[i].name, name) {
        lemma_first_holding_bound(pkgs, name, i + 1);
    }
}

proof fn lemma_override_in_range(pkgs: Seq<PackageView>, o: Seq<(Seq<char>, Seq<char>)>, pre: bool, preid: Seq<char>)
    requires
        pkgs.len() <= usize::MAX,
    ensures
        targets_in_range(override_targets(pkgs, o, pre, preid), pkgs.len()),
    decreases o.len(),
{
    if o.len() > 0 {
        lemma_override_in_range(pkgs, o.drop_last(), pre, preid);
        let r = override_targets(pkgs, o.drop_last(), pre, preid);
        let j = first_holding(pkgs, o.last().0, 0);
        lemma_first_holding_bound(pkgs, o.last().0, 0);
        assert forall|k: int| 0 <= k < override_targets(pkgs, o, pre, preid).len() implies (#[trigger] override_targets(pkgs, o, pre, preid)[k]).0 < pkgs.len() by {
            if k < r.len() {
                assert(override_targets(pkgs, o, pre, preid)[k] == r[k]);
            } else {
                assert(j < pkgs.len());
                assert(override_targets(pkgs, o, pre, preid)[k].0 == j as usize);
            }
        }
    }
}

proof fn lemma_commit_in_range(pkgs: Seq<PackageView>, m: Seq<(Seq<char>, Seq<ConventionalCommit>)>, pre: bool, preid: Seq<char>)
    ensures
        targets_in_range(commit_targets(pkgs, m, pre, preid), pkgs.len()),
    decreases pkgs.len(),
{
    if pkgs.len() > 0 {
        lemma_commit_in_range(pkgs.drop_last(), m, pre, preid);
        let r = commit_targets(pkgs.drop_last(), m, pre, preid);
        assert forall|k: int| 0 <= k < commit_targets(pkgs, m, pre, preid).len() implies (#[trigger] commit_targets(pkgs, m, pre, preid)[k]).0 < pkgs.len() by {
            if k < r.len() {
                assert(commit_targets(pkgs, m, pre, preid)[k] == r[k]);
            }
        }
    }
}

proof fn lemma_all_in_range(pkgs: Seq<PackageView>, bump: Seq<char>, pre: bool, preid: Seq<char>)
    ensures
        targets_in_range(all_targets(pkgs, bump, pre, preid), pkgs.len()),
        all_targets(pkgs, bump, pre, preid).len() == pkgs.len(),
    decreases pkgs.len(),
{
    if pkgs.len() > 0 {
        lemma_all_in_range(pkgs.drop_last(), bump, pre, preid);
        let r = all_targets(pkgs.drop_last(), bump, pre, preid);
        assert forall|k: int| 0 <= k < all_targets(pkgs, bump, pre, preid).len() implies (#[trigger] all_targets(pkgs, bump, pre, preid)[k]).0 < pkgs.len() by {
            if k < r.len() {
                assert(all_targets(pkgs, bump, pre, preid)[k] == r[k]);
            }
        }
    }
}

/// The base of coordinated versioning is the highest of the packages'
/// readable versions in the full (major, minor, patch) order: no package's
/// version is later, and the base is one of them (or 0.0.0 where none can
/// be read).
pub proof fn lemma_highest_numbers_is_maximum(pkgs: Seq<PackageView>)
    ensures
        forall|i: int|
            0 <= i < pkgs.len() && #[trigger] loose_parse(current_of(pkgs[i])) is Some ==> {
                let t = loose_parse(current_of(pkgs[i])).unwrap();
                let h = highest_numbers(pkgs);
                t.0 < h.0 || (t.0 == h.0 && t.1 < h.1) || (t.0 == h.0 && t.1 == h.1 && t.2 <= h.2)
            },
        highest_numbers(pkgs) == (0u64, 0u64, 0u64) || exists|i: int|
            0 <= i < pkgs.len() && #[trigger] loose_parse(current_of(pkgs[i])) is Some && {
                let t = loose_parse(current_of(pkgs[i])).unwrap();
                highest_numbers(pkgs) == (t.0, t.1, t.2)
            },
    decreases pkgs.len(),
{
    if pkgs.len() > 0 {
        let rest = pkgs.drop_last();
        lemma_highest_numbers_is_maximum(rest);
        assert forall|i: int| 0 <= i < rest.len() implies rest[i] == pkgs[i] by {}
        let h = highest_numbers(pkgs);
        let hr = highest_numbers(rest);
        assert forall|i: int|
            0 <= i < pkgs.len() && #[trigger] loose_parse(current_of(pkgs[i])) is Some implies {
                let t = loose_parse(current_of(pkgs[i])).unwrap();
                t.0 < h.0 || (t.0 == h.0 && t.1 < h.1) || (t.0 == h.0 && t.1 == h.1 && t.2 <= h.2)
            } by {
            if i < rest.len() {
                assert(rest[i] == pkgs[i]);
                assert(loose_parse(current_of(rest[i])) is Some);
            }
        }
        if h != (0u64, 0u64, 0u64) {
            if h == hr {
                if hr != (0u64, 0u64, 0u64) {
                    let i = choose|i: int|
                        0 <= i < rest.len() && #[trigger] loose_parse(current_of(rest[i])) is Some && {
                            let t = loose_parse(current_of(rest[i])).unwrap();
                            hr == (t.0, t.1, t.2)
                        };
                    assert(rest[i] == pkgs[i]);
                    assert(loose_parse(current_of(pkgs[i])) is Some);
                }
            } else {
                let n = pkgs.len() - 1;
                assert(pkgs[n] == pkgs.last());
                assert(loose_parse(current_of(pkgs[n])) is Some);
            }
        }
    }
}

/// Every target of a plan is one of the workspace's packages, whichever
/// way the packages were chosen.
pub proof fn lemma_plan_targets_in_range(
    pkgs: Seq<PackageView>,
    args: VersionArgs,
    is_coordinated: bool,
    commits: Option<Seq<(Seq<char>, Seq<ConventionalCommit>)>>,
)
    requires
        pkgs.len() <= usize::MAX,
    ensures
        plan_spec(pkgs, args, is_coordinated, commits) matches Ok(PlanView::Targets(t)) ==> targets_in_range(t, pkgs.len()),
{
    lemma_graduate_in_range(pkgs);
    lemma_override_in_range(pkgs, override_views(args.overrides@), args.prerelease, args.preid@);
    lemma_commit_in_range(pkgs, commits.unwrap(), args.prerelease, args.preid@);
    lemma_all_in_range(pkgs, args.bump@, args.prerelease, args.preid@);
    assert forall|t: Seq<char>| targets_in_range(#[trigger] all_to(pkgs.len(), t), pkgs.len()) by {
        assert forall|k: int| 0 <= k < all_to(pkgs.len(), t).len() implies (#[trigger] all_to(pkgs.len(), t)[k]).0 < pkgs.len() by {
            assert(all_to(pkgs.len(), t)[k].0 == k as usize);
        }
    }
}

/// Each dependency update is for a package that was not bumped itself, on a
/// dependency that was, to that dependency's new version.
pub proof fn lemma_updates_only_for_unbumped(pkgs: Seq<PackageView>, versioned: Seq<(Seq<char>, Seq<char>)>)
    requires
        pkgs.len() <= usize::MAX,
    ensures
        forall|k: int|
            0 <= k < dependency_updates_spec(pkgs, versioned).len() ==> {
                let u = #[trigger] dependency_updates_spec(pkgs, versioned)[k];
                &&& u.0 < pkgs.len()
                &&& bumped_version(versioned, pkgs[u.0 as int].name) is None
                &&& bumped_version(versioned, u.1) == Some(u.2)
            },
    decreases pkgs.len(),
{
    if pkgs.len() > 0 {
        let n = pkgs.len() - 1;
        let rest = pkgs.drop_last();
        lemma_updates_only_for_unbumped(rest, versioned);
        let r = dependency_updates_spec(rest, versioned);
        let p = pkgs[n];
        let deps = p.dependencies + p.dev_dependencies;
        lemma_updates_in_shape(deps, n as usize, versioned);
        assert forall|k: int| 0 <= k < dependency_updates_spec(pkgs, versioned).len() implies {
            let u = #[trigger] dependency_updates_spec(pkgs, versioned)[k];
            &&& u.0 < pkgs.len()
            &&& bumped_version(versioned, pkgs[u.0 as int].name) is None
            &&& bumped_version(versioned, u.1) == Some(u.2)
        } by {
            if k < r.len() {
                assert(dependency_updates_spec(pkgs, versioned)[k] == r[k]);
                assert(pkgs[r[k].0 as int] == rest[r[k].0 as int]);
            } else {
                let t = updates_in(deps, n as usize, versioned);
                assert(dependency_updates_spec(pkgs, versioned)[k] == t[k - r.len()]);
            }
        }
    }
}

proof fn lemma_updates_in_shape(deps: Seq<Seq<char>>, i: usize, versioned: Seq<(Seq<char>, Seq<char>)>)
    ensures
        forall|k: int|
            0 <= k < updates_in(deps, i, versioned).len() ==> {
                let u = #[trigger] updates_in(deps, i, versioned)[k];
                u.0 == i && bumped_version(versioned, u.1) == Some(u.2)
            },
    decreases deps.len(),
{
    if deps.len() > 0 {
        lemma_updates_in_shape(deps.drop_last(), i, versioned);
        let r = updates_in(deps.drop_last(), i, versioned);
        assert forall|k: int| 0 <= k < updates_in(deps, i, versioned).len() implies {
            let u = #[trigger] updates_in(deps, i, versioned)[k];
            u.0 == i && bumped_version(versioned, u.1) == Some(u.2)
        } by {
            if k < r.len() {
                assert(updates_in(deps, i, versioned)[k] == r[k]);
            }
        }
    }
}


// ---------------------------------------------------------------------------
// Branch and tags
// ---------------------------------------------------------------------------

pub open spec fn wrong_branch_message(expected: Seq<char>, current: Seq<char>) -> Seq<char> {
    "Expected to be on branch '"@ + expected + "', but currently on '"@ + current
        + "'. Version bumps are restricted to the configured branch."@
}

/// Checks the current branch (as `git rev-parse --abbrev-ref HEAD` prints
/// it, trimmed here) against the branch that versioning is restricted to.
pub fn check_branch(current: &str, expected: &str) -> (r: Result<(), String>)
    ensures
        r is Ok <==> trim(current@) == expected@,
        match r {
            Ok(_) => true,
            Err(m) => m@ == wrong_branch_message(expected@, trim(current@)),
        },
{
    let cv = to_chars(current);
    let t = trim_chars(cv.as_slice());
    let ts = from_chars(t.as_slice());
    if str_eq(ts.as_str(), expected) {
        Ok(())
    } else {
        let mut out: Vec<char> = Vec::new();
        append_str(&mut out, "Expected to be on branch '");
        append_str(&mut out, expected);
        append_str(&mut out, "', but currently on '");
        append_str(&mut out, ts.as_str());
        append_str(&mut out, "'. Version bumps are restricted to the configured branch.");
        Err(from_chars(out.as_slice()))
    }
}

/// The name of a release tag: `<package>-v<version>`.
pub fn tag_name(package: &str, version: &str) -> (r: String)
    ensures
        r@ == package@ + "-v"@ + version@,
{
    let mut out: Vec<char> = Vec::new();
    append_str(&mut out, package);
    append_str(&mut out, "-v");
    append_str(&mut out, version);
    from_chars(out.as_slice())
}

/// The message of a release tag: `<package> v<version>`.
pub fn tag_message(package: &str, version: &str) -> (r: String)
    ensures
        r@ == package@ + " v"@ + version@,
{
    let mut out: Vec<char> = Vec::new();
    append_str(&mut out, package);
    append_str(&mut out, " v");
    append_str(&mut out, version);
    from_chars(out.as_slice())
}
// ---------------------------------------------------------------------------
// Changelogs
// ---------------------------------------------------------------------------

/// The names of `(name, version)` pairs, in order.
pub open spec fn pair_names(v: Seq<(String, String)>) -> Seq<Seq<char>> {
    v.map_values(|e: (String, String)| e.0@)
}

/// The names of commit groups, in order.
pub open spec fn group_names(g: Seq<(String, Vec<ConventionalCommit>)>) -> Seq<Seq<char>> {
    g.map_values(|e: (String, Vec<ConventionalCommit>)| e.0@)
}

/// The new version of the package `name`: the first versioned entry for
/// it, else `unknown`.
pub open spec fn version_for(versioned: Seq<(String, String)>, name: Seq<char>) -> Seq<char> {
    match first_index_of(pair_names(versioned), name) {
        Some(j) => versioned[j].1@,
        None => "unknown"@,
    }
}

/// The changelogs to write, one per targeted package (in the targets'
/// order) whose first commit group holds a commit: the package's position,
/// its new version and the group's position.
pub open spec fn changelog_plan(
    pkgs: Seq<PackageView>,
    targets: Seq<(usize, Seq<char>)>,
    versioned: Seq<(String, String)>,
    groups: Seq<(String, Vec<ConventionalCommit>)>,
) -> Seq<(usize, Seq<char>, usize)>
    decreases targets.len(),
{
    if targets.len() == 0 {
        seq![]
    } else {
        let prev = changelog_plan(pkgs, targets.drop_last(), versioned, groups);
        let t = targets.last().0;
        if t < pkgs.len() {
            let name = pkgs[t as int].name;
            match first_index_of(group_names(groups), name) {
                Some(g) => if groups[g].1@.len() > 0 {
                    prev.push((t, version_for(versioned, name), g as usize))
                } else {
                    prev
                },
                None => prev,
            }
        } else {
            prev
        }
    }
}

pub open spec fn entries_view(v: Seq<(usize, String, usize)>) -> Seq<(usize, Seq<char>, usize)> {
    v.map_values(|e: (usize, String, usize)| (e.0, e.1@, e.2))
}

fn first_pair_named(v: &Vec<(String, String)>, name: &str) -> (r: Option<usize>)
    ensures
        match r {
            Some(i) => i < v@.len() && first_index_of(pair_names(v@), name@) == Some(i as int),
            None => first_index_of(pair_names(v@), name@) is None,
        },
{
    let ghost names = pair_names(v@);
    let mut i: usize = 0;
    while i < v.len()
        invariant
            i <= v@.len(),
            names == pair_names(v@),
            forall|k: int| 0 <= k < i ==> names[k] != name@,
        decreases v@.len() - i,
    {
        if str_eq(v[i].0.as_str(), name) {
            proof {
                lemma_first_index_at(names, name@, i as int);
            }
            return Some(i);
        }
        i += 1;
    }
    proof {
        lemma_first_index_of(names, name@);
    }
    None
}

fn first_group_named(v: &Vec<(String, Vec<ConventionalCommit>)>, name: &str) -> (r: Option<usize>)
    ensures
        match r {
            Some(i) => i < v@.len() && first_index_of(group_names(v@), name@) == Some(i as int),
            None => first_index_of(group_names(v@), name@) is None,
        },
{
    let ghost names = group_names(v@);
    let mut i: usize = 0;
    while i < v.len()
        invariant
            i <= v@.len(),
            names == group_names(v@),
            forall|k: int| 0 <= k < i ==> names[k] != name@,
        decreases v@.len() - i,
    {
        if str_eq(v[i].0.as_str(), name) {
            proof {
                lemma_first_index_at(names, name@, i as int);
            }
            return Some(i);
        }
        i += 1;
    }
    proof {
        lemma_first_index_of(names, name@);
    }
    None
}

/// The changelogs to write after a release: for each target, in order,
/// where the package's commit group holds commits, the package's position,
/// its new version (from `versioned`) and the group's position.
pub fn changelog_entries(
    packages: &[Package],
    targets: &Vec<(usize, String)>,
    versioned: &Vec<(String, String)>,
    groups: &Vec<(String, Vec<ConventionalCommit>)>,
) -> (r: Vec<(usize, String, usize)>)
    ensures
        entries_view(r@) == changelog_plan(package_views(packages@), targets_view(targets@), versioned@, groups@),
{
    let ghost pkgs = package_views(packages@);
    let mut out: Vec<(usize, String, usize)> = Vec::new();
    let mut k: usize = 0;
    while k < targets.len()
        invariant
            k <= targets@.len(),
            pkgs == package_views(packages@),
            entries_view(out@) == changelog_plan(pkgs, targets_view(targets@).take(k as int), versioned@, groups@),
        decreases targets@.len() - k,
    {
        proof {
            assert(targets_view(targets@).take(k + 1).drop_last() =~= targets_view(targets@).take(k as int));
            assert(targets_view(targets@).take(k + 1).last() == targets_view(targets@)[k as int]);
        }
        let t = targets[k].0;
        if t < packages.len() {
            let name = packages[t].name.as_str();
            assert(pkgs[t as int].name == name@);
            match first_group_named(groups, name) {
                Some(g) => {
                    if groups[g].1.len() > 0 {
                        let version = match first_pair_named(versioned, name) {
                            Some(j) => versioned[j].1.clone(),
                            None => "unknown".to_owned(),
                        };
                        out.push((t, version, g));
                        proof {
                            assert(entries_view(out@) =~= changelog_plan(
                                pkgs,
                                targets_view(targets@).take(k as int),
                                versioned@,
                                groups@,
                            ).push((t, version_for(versioned@, name@), g)));
                        }
                    }
                },
                None => {},
            }
        }
        k += 1;
    }
    proof {
        assert(targets_view(targets@).take(targets@.len() as int) =~= targets_view(targets@));
    }
    out
}

/// The version a workspace changelog entry is written under: that of the
/// first versioned package, else `0.0.0`.
pub fn summary_version(versioned: &Vec<(String, String)>) -> (r: String)
    ensures
        r@ == if versioned@.len() > 0 {
            versioned@[0].1@
        } else {
            "0.0.0"@
        },
{
    if versioned.len() > 0 {
        versioned[0].1.clone()
    } else {
        "0.0.0".to_owned()
    }
}

} // verus!
