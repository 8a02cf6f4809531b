//! Linking local packages through `pubspec_overrides.yaml`: which
//! dependencies of a package are local, and the file that points them to
//! their directories.
use vstd::prelude::*;
use crate::order::{stable_order, stably_sorted};
use crate::package::{Package, PackageView, package_views};
use crate::text::{append_str, from_chars, str_eq, to_chars, views};

verus! {

/// The relative path from `base` to `path` that `pathdiff::diff_paths`
/// gives (`None` where there is none).
pub uninterp spec fn path_difference(path: Seq<char>, base: Seq<char>) -> Option<Seq<char>>;

/// `pathdiff::diff_paths` on paths given as text, the result shown as text.
/// The result is named, not stated.
#[verifier::external_body]
fn diff_paths(path: &str, base: &str) -> (r: Option<String>)
    ensures
        match r {
            Some(t) => path_difference(path@, base@) == Some(t@),
            None => path_difference(path@, base@) is None,
        },
{
    pathdiff::diff_paths(path, base).map(|p| p.display().to_string())
}

/// The path written for a dependency: relative to the package where there
/// is a relative path, the dependency's own path otherwise.
pub open spec fn relative_spec(dep_path: Seq<char>, base: Seq<char>) -> Seq<char> {
    match path_difference(dep_path, base) {
        Some(r) => r,
        None => dep_path,
    }
}

/// The first line and the section key of the overrides file.
pub open spec fn overrides_header() -> Seq<char> {
    "# Generated by melos-rs. Do not edit.\ndependency_overrides:\n"@
}

/// The entries for the dependencies, in the given order.
pub open spec fn override_entries(deps: Seq<PackageView>, order: Seq<usize>, base: Seq<char>) -> Seq<char>
    decreases order.len(),
{
    if order.len() == 0 {
        seq![]
    } else {
        let d = deps[order.last() as int];
        override_entries(deps, order.drop_last(), base) + "  "@ + d.name + ":\n"@ + "    path: "@ + relative_spec(
            d.path,
            base,
        ) + "\n"@
    }
}

/// The names of packages.
pub open spec fn names_of(deps: Seq<PackageView>) -> Seq<Seq<char>> {
    deps.map_values(|p: PackageView| p.name)
}

/// The views of referenced packages.
pub open spec fn ref_views(v: Seq<&Package>) -> Seq<PackageView> {
    v.map_values(|p: &Package| p@)
}

/// The text of a `pubspec_overrides.yaml` for the local dependencies of the
/// package at `pkg_path`.
pub fn build_pubspec_overrides_content(local_deps: &[&Package], pkg_path: &str) -> (r: String)
    ensures
        exists|order: Seq<usize>|
            #[trigger] stably_sorted(names_of(ref_views(local_deps@)), order) && r@ == overrides_header()
                + override_entries(ref_views(local_deps@), order, pkg_path@),
{
    let ghost deps = ref_views(local_deps@);
    let mut keys: Vec<Vec<char>> = Vec::new();
    let mut i: usize = 0;
    while i < local_deps.len()
        invariant
            i <= local_deps@.len(),
            deps == ref_views(local_deps@),
            keys@.len() == i,
            forall|k: int| 0 <= k < i ==> (#[trigger] keys@[k])@ == names_of(deps)[k],
        decreases local_deps@.len() - i,
    {
        keys.push(to_chars(local_deps[i].name.as_str()));
        i += 1;
    }
    proof {
        crate::text::lemma_deep_view_chars(keys);
        assert(keys.deep_view() =~= names_of(deps));
    }
    let order = stable_order(&keys);
    let mut out: Vec<char> = Vec::new();
    append_str(&mut out, "# Generated by melos-rs. Do not edit.\ndependency_overrides:\n");
    let mut k: usize = 0;
    while k < order.len()
        invariant
            k <= order@.len(),
            deps == ref_views(local_deps@),
            stably_sorted(names_of(deps), order@),
            out@ == overrides_header() + override_entries(deps, order@.take(k as int), pkg_path@),
        decreases order@.len() - k,
    {
        let d = local_deps[order[k]];
        assert(deps[order@[k as int] as int] == d@);
        let rel = match diff_paths(d.path.as_str(), pkg_path) {
            Some(r) => r,
            None => d.path.clone(),
        };
        append_str(&mut out, "  ");
        append_str(&mut out, d.name.as_str());
        append_str(&mut out, ":\n");
        append_str(&mut out, "    path: ");
        append_str(&mut out, rel.as_str());
        append_str(&mut out, "\n");
        assert(order@.take(k + 1).drop_last() =~= order@.take(k as int));
        assert(out@ =~= overrides_header() + override_entries(deps, order@.take(k + 1), pkg_path@));
        k += 1;
    }
    assert(order@.take(order@.len() as int) =~= order@);
    from_chars(out.as_slice())
}

// ---------------------------------------------------------------------------
// Which packages are linked
// ---------------------------------------------------------------------------

/// The first source package named `name`.
pub open spec fn first_named(sources: Seq<PackageView>, name: Seq<char>, i: int) -> int
    decreases sources.len() - i,
{
    if i < 0 || i >= sources.len() {
        sources.len() as int
    } else if sources[i].name == name {
        i
    } else {
        first_named(sources, name, i + 1)
    }
}

/// For each dependency name, in order, the first source package with that
/// name (names that no source has are left out).
pub open spec fn local_deps_spec(deps: Seq<Seq<char>>, sources: Seq<PackageView>) -> Seq<usize>
    decreases deps.len(),
{
    if deps.len() == 0 {
        seq![]
    } else {
        let j = first_named(sources, deps.last(), 0);
        local_deps_spec(deps.drop_last(), sources) + if j < sources.len() {
            seq![j as usize]
        } else {
            seq![]
        }
    }
}

proof fn lemma_first_named_bound(sources: Seq<PackageView>, name: Seq<char>, i: int)
    requires
        0 <= i,
    ensures
        i <= sources.len() ==> i <= first_named(sources, name, i),
        first_named(sources, name, i) <= sources.len(),
    decreases sources.len() - i,
{
    if i < sources.len() && sources[i].name != name {
        lemma_first_named_bound(sources, name, i + 1);
    }
}

proof fn lemma_local_deps_in_range(deps: Seq<Seq<char>>, sources: Seq<PackageView>)
    requires
        sources.len() <= usize::MAX,
    ensures
        forall|m: int| 0 <= m < local_deps_spec(deps, sources).len() ==> #[trigger] local_deps_spec(deps, sources)[m]
            < sources.len(),
    decreases deps.len(),
{
    if deps.len() > 0 {
        lemma_local_deps_in_range(deps.drop_last(), sources);
        let r = local_deps_spec(deps.drop_last(), sources);
        assert forall|m: int| 0 <= m < local_deps_spec(deps, sources).len() implies #[trigger] local_deps_spec(deps, sources)[m]
            < sources.len() by {
            if m < r.len() {
                assert(local_deps_spec(deps, sources)[m] == r[m]);
            } else {
                let j = first_named(sources, deps.last(), 0);
                lemma_first_named_bound(sources, deps.last(), 0);
                assert(j < sources.len());
                assert(local_deps_spec(deps, sources)[m] == j as usize);
            }
        }
    }
}

fn first_named_exec(sources: &[Package], name: &str) -> (r: usize)
    ensures
        r == first_named(package_views(sources@), name@, 0),
{
    let mut j: usize = 0;
    while j < sources.len()
        invariant
            j <= sources@.len(),
            first_named(package_views(sources@), name@, 0) == first_named(package_views(sources@), name@, j as int),
        decreases sources@.len() - j,
    {
        if str_eq(sources[j].name.as_str(), name) {
            return j;
        }
        j += 1;
    }
    j
}

fn push_local(out: &mut Vec<usize>, deps: &Vec<String>, sources: &[Package])
    ensures
        final(out)@ == old(out)@ + local_deps_spec(views(deps@), package_views(sources@)),
{
    let ghost start = out@;
    let mut k: usize = 0;
    while k < deps.len()
        invariant
            k <= deps@.len(),
            out@ == start + local_deps_spec(views(deps@).take(k as int), package_views(sources@)),
        decreases deps@.len() - k,
    {
        assert(views(deps@).take(k + 1).drop_last() =~= views(deps@).take(k as int));
        assert(views(deps@).take(k + 1).last() == deps@[k as int]@);
        let j = first_named_exec(sources, deps[k].as_str());
        if j < sources.len() {
            out.push(j);
        }
        assert(out@ =~= start + local_deps_spec(views(deps@).take(k + 1), package_views(sources@)));
        k += 1;
    }
    assert(views(deps@).take(deps@.len() as int) =~= views(deps@));
}

proof fn lemma_local_deps_append(a: Seq<Seq<char>>, b: Seq<Seq<char>>, sources: Seq<PackageView>)
    ensures
        local_deps_spec(a + b, sources) == local_deps_spec(a, sources) + local_deps_spec(b, sources),
    decreases b.len(),
{
    if b.len() == 0 {
        assert(a + b =~= a);
    } else {
        lemma_local_deps_append(a, b.drop_last(), sources);
        assert((a + b).drop_last() =~= a + b.drop_last());
    }
}

/// The local dependencies of a package: for each of its dependencies and
/// then dev dependencies that a source package is named after, the first
/// such source (positions in `sources`).
pub fn local_override_deps(pkg: &Package, sources: &[Package]) -> (r: Vec<usize>)
    ensures
        r@ == local_deps_spec(pkg@.dependencies + pkg@.dev_dependencies, package_views(sources@)),
{
    let mut out: Vec<usize> = Vec::new();
    push_local(&mut out, &pkg.dependencies, sources);
    push_local(&mut out, &pkg.dev_dependencies, sources);
    proof {
        lemma_local_deps_append(pkg@.dependencies, pkg@.dev_dependencies, package_views(sources@));
        assert(out@ =~= local_deps_spec(pkg@.dependencies + pkg@.dev_dependencies, package_views(sources@)));
    }
    out
}

/// What bootstrapping does with a package's `pubspec_overrides.yaml`.
pub enum OverrideAction {
    /// Nothing: the package resolves through the Dart workspace, which
    /// refuses overrides.
    Skip,
    /// Remove a stale file: the package has no local dependencies.
    Remove,
    /// Write the file with this text.
    Write(String),
}

/// The source packages at the positions `local`.
pub open spec fn picked_sources(local: Seq<usize>, sources: Seq<PackageView>) -> Seq<PackageView> {
    local.map_values(|j: usize| sources[j as int])
}

/// Whether `a` is the action for a package with local dependencies `local`
/// (positions in `sources`).
pub open spec fn override_action_spec(
    p: PackageView,
    sources: Seq<PackageView>,
    local: Seq<usize>,
    a: OverrideAction,
) -> bool {
    if p.resolution == Some("workspace"@) {
        a is Skip
    } else if local.len() == 0 {
        a is Remove
    } else {
        a matches OverrideAction::Write(t) && exists|order: Seq<usize>|
            #[trigger] stably_sorted(names_of(picked_sources(local, sources)), order) && t@ == overrides_header()
                + override_entries(picked_sources(local, sources), order, p.path)
    }
}

/// The action for each package, in order: the packages' local dependencies
/// are looked up among `sources` (the workspace's packages and those found
/// on the dependency override paths).
pub fn plan_pubspec_overrides(packages: &[Package], sources: &[Package]) -> (r: Vec<OverrideAction>)
    ensures
        r@.len() == packages@.len(),
        forall|i: int|
            0 <= i < packages@.len() ==> override_action_spec(
                packages@[i]@,
                package_views(sources@),
                local_deps_spec(
                    packages@[i]@.dependencies + packages@[i]@.dev_dependencies,
                    package_views(sources@),
                ),
                #[trigger] r@[i],
            ),
{
    let mut out: Vec<OverrideAction> = Vec::new();
    let mut i: usize = 0;
    while i < packages.len()
        invariant
            i <= packages@.len(),
            out@.len() == i,
            forall|k: int|
                0 <= k < i ==> override_action_spec(
                    packages@[k]@,
                    package_views(sources@),
                    local_deps_spec(
                        packages@[k]@.dependencies + packages@[k]@.dev_dependencies,
                        package_views(sources@),
                    ),
                    #[trigger] out@[k],
                ),
        decreases packages@.len() - i,
    {
        let p = &packages[i];
        let ghost sv = package_views(sources@);
        let ghost local_spec = local_deps_spec(p@.dependencies + p@.dev_dependencies, sv);
        let action = if p.uses_workspace_resolution() {
            OverrideAction::Skip
        } else {
            let local = local_override_deps(p, sources);
            proof {
                assert(sv.len() == sources.len());
                lemma_local_deps_in_range(p@.dependencies + p@.dev_dependencies, sv);
            }
            if local.len() == 0 {
                OverrideAction::Remove
            } else {
                let mut deps: Vec<&Package> = Vec::new();
                let mut k: usize = 0;
                while k < local.len()
                    invariant
                        k <= local@.len(),
                        sv == package_views(sources@),
                        local@ == local_spec,
                        forall|m: int| 0 <= m < local@.len() ==> #[trigger] local@[m] < sources@.len(),
                        ref_views(deps@) == picked_sources(local@.take(k as int), sv),
                    decreases local@.len() - k,
                {
                    let ghost before = ref_views(deps@);
                    deps.push(&sources[local[k]]);
                    assert(ref_views(deps@) =~= before.push(sources@[local@[k as int] as int]@));
                    assert(picked_sources(local@.take(k + 1), sv) =~= picked_sources(local@.take(k as int), sv).push(
                        sv[local@[k as int] as int],
                    ));
                    k += 1;
                }
                assert(local@.take(local@.len() as int) =~= local@);
                let content = build_pubspec_overrides_content(deps.as_slice(), p.path.as_str());
                assert(ref_views(deps@) == picked_sources(local_spec, sv));
                OverrideAction::Write(content)
            }
        };
        assert(override_action_spec(p@, sv, local_spec, action));
        out.push(action);
        assert forall|k: int| 0 <= k < i + 1 implies override_action_spec(
            packages@[k]@,
            package_views(sources@),
            local_deps_spec(packages@[k]@.dependencies + packages@[k]@.dev_dependencies, package_views(sources@)),
            #[trigger] out@[k],
        ) by {
            if k == i {
                assert(packages@[k]@ == p@);
            }
        }
        i += 1;
    }
    out
}

} // verus!
