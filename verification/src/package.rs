//! Packages of the workspace and the filters that select them.
use vstd::prelude::*;
use crate::config::PackageFilters;
use crate::text::{
    eq_ignore_ascii_case, eq_ignore_ascii_case_exec, split_char, split_on_char, str_eq, to_chars,
    trim, trim_chars, from_chars, views,
};

verus! {

/// A Dart or Flutter package of the workspace.
#[derive(Debug)]
pub struct Package {
    /// The name from `pubspec.yaml`.
    pub name: String,
    /// The package's directory.
    pub path: String,
    /// The version from `pubspec.yaml`.
    pub version: Option<String>,
    /// Whether the package uses Flutter.
    pub is_flutter: bool,
    /// The `publish_to` field (`none` for private packages).
    pub publish_to: Option<String>,
    /// Names of the dependencies.
    pub dependencies: Vec<String>,
    /// Names of the dev dependencies.
    pub dev_dependencies: Vec<String>,
    /// Version constraints of the dependencies that give one, by name.
    pub dependency_versions: Vec<(String, String)>,
    /// The `resolution` field (`workspace` for Dart workspace members).
    pub resolution: Option<String>,
}

/// The mathematical value of a [`Package`].
pub struct PackageView {
    pub name: Seq<char>,
    pub path: Seq<char>,
    pub version: Option<Seq<char>>,
    pub is_flutter: bool,
    pub publish_to: Option<Seq<char>>,
    pub dependencies: Seq<Seq<char>>,
    pub dev_dependencies: Seq<Seq<char>>,
    pub dependency_versions: Seq<(Seq<char>, Seq<char>)>,
    pub resolution: Option<Seq<char>>,
}

pub open spec fn opt_string_view(o: Option<String>) -> Option<Seq<char>> {
    match o {
        Some(s) => Some(s@),
        None => None,
    }
}

pub open spec fn pair_views(v: Seq<(String, String)>) -> Seq<(Seq<char>, Seq<char>)> {
    v.map_values(|p: (String, String)| (p.0@, p.1@))
}

impl View for Package {
    type V = PackageView;

    open spec fn view(&self) -> PackageView {
        PackageView {
            name: self.name@,
            path: self.path@,
            version: opt_string_view(self.version),
            is_flutter: self.is_flutter,
            publish_to: opt_string_view(self.publish_to),
            dependencies: views(self.dependencies@),
            dev_dependencies: views(self.dev_dependencies@),
            dependency_versions: pair_views(self.dependency_versions@),
            resolution: opt_string_view(self.resolution),
        }
    }
}

pub open spec fn package_views(v: Seq<Package>) -> Seq<PackageView> {
    v.map_values(|p: Package| p@)
}

/// Copies a string.
fn copy_string(s: &String) -> (r: String)
    ensures
        r@ == s@,
{
    s.clone()
}

fn copy_opt_string(o: &Option<String>) -> (r: Option<String>)
    ensures
        opt_string_view(r) == opt_string_view(*o),
{
    match o {
        Some(s) => Some(copy_string(s)),
        None => None,
    }
}

/// Copies a list of strings.
pub fn copy_strings(v: &Vec<String>) -> (r: Vec<String>)
    ensures
        views(r@) == views(v@),
{
    let mut out: Vec<String> = Vec::new();
    let mut i: usize = 0;
    while i < v.len()
        invariant
            i <= v.len(),
            views(out@) == views(v@).take(i as int),
        decreases v.len() - i,
    {
        let ghost before = views(out@);
        out.push(copy_string(&v[i]));
        assert(views(out@) =~= before.push(v@[i as int]@));
        i += 1;
        assert(views(v@).take(i as int) =~= views(v@).take(i - 1).push(v@[i - 1]@));
    }
    assert(views(v@).take(v.len() as int) =~= views(v@));
    out
}

fn copy_pairs(v: &Vec<(String, String)>) -> (r: Vec<(String, String)>)
    ensures
        pair_views(r@) == pair_views(v@),
{
    let mut out: Vec<(String, String)> = Vec::new();
    let mut i: usize = 0;
    while i < v.len()
        invariant
            i <= v.len(),
            pair_views(out@) == pair_views(v@).take(i as int),
        decreases v.len() - i,
    {
        let ghost before = pair_views(out@);
        let k = copy_string(&v[i].0);
        let x = copy_string(&v[i].1);
        out.push((k, x));
        assert(pair_views(out@) =~= before.push((v@[i as int].0@, v@[i as int].1@)));
        i += 1;
        assert(pair_views(v@).take(i as int) =~= pair_views(v@).take(i - 1).push(
            (v@[i - 1].0@, v@[i - 1].1@),
        ));
    }
    assert(pair_views(v@).take(v.len() as int) =~= pair_views(v@));
    out
}

impl Clone for Package {
    fn clone(&self) -> (r: Self)
        ensures
            r@ == self@,
    {
        Package {
            name: copy_string(&self.name),
            path: copy_string(&self.path),
            version: copy_opt_string(&self.version),
            is_flutter: self.is_flutter,
            publish_to: copy_opt_string(&self.publish_to),
            dependencies: copy_strings(&self.dependencies),
            dev_dependencies: copy_strings(&self.dev_dependencies),
            dependency_versions: copy_pairs(&self.dependency_versions),
            resolution: copy_opt_string(&self.resolution),
        }
    }
}

/// Whether `publish_to` is `none`, in any letter case.
pub open spec fn is_private_spec(p: PackageView) -> bool {
    match p.publish_to {
        Some(t) => eq_ignore_ascii_case(t, "none"@),
        None => false,
    }
}

/// Whether the package depends on `dep`, as a dependency or dev dependency.
pub open spec fn has_dependency_spec(p: PackageView, dep: Seq<char>) -> bool {
    p.dependencies.contains(dep) || p.dev_dependencies.contains(dep)
}

/// The text of `Path::new(base).join(rel)`: `rel` after `base` and a
/// separator, or `rel` alone where it is absolute. It follows the
/// platform's path rules and depends on the two texts alone.
pub uninterp spec fn path_joined(base: Seq<char>, rel: Seq<char>) -> Seq<char>;

/// `Path::join` of two paths given as text (`to_string_lossy` of the joined
/// path). The contract names the result; it depends on the two texts alone.
#[verifier::external_body]
fn path_join(base: &str, relative: &str) -> (r: String)
    ensures
        r@ == path_joined(base@, relative@),
{
    std::path::Path::new(base).join(relative).to_string_lossy().into_owned()
}

/// `Path::is_file`: whether a file is there now. Nothing is stated of the
/// result: it depends on the disk.
#[verifier::external_body]
fn path_is_file(p: &str) -> (r: bool) {
    std::path::Path::new(p).is_file()
}

/// `Path::is_dir`: whether a directory is there now. Nothing is stated of
/// the result: it depends on the disk.
#[verifier::external_body]
fn path_is_dir(p: &str) -> (r: bool) {
    std::path::Path::new(p).is_dir()
}

/// Whether `v` holds `s`.
fn strings_contain(v: &Vec<String>, s: &str) -> (r: bool)
    ensures
        r == views(v@).contains(s@),
{
    let mut i: usize = 0;
    while i < v.len()
        invariant
            i <= v.len(),
            forall|k: int| 0 <= k < i ==> views(v@)[k] != s@,
        decreases v.len() - i,
    {
        if str_eq(v[i].as_str(), s) {
            assert(views(v@)[i as int] == s@);
            return true;
        }
        i += 1;
    }
    assert(!views(v@).contains(s@)) by {
        if views(v@).contains(s@) {
            let k = choose|k: int| 0 <= k < views(v@).len() && views(v@)[k] == s@;
            assert(views(v@)[k] != s@);
        }
    }
    false
}

impl Package {
    /// Whether the package is private (`publish_to: none`, in any case).
    pub fn is_private(&self) -> (r: bool)
        ensures
            r == is_private_spec(self@),
    {
        match &self.publish_to {
            Some(p) => {
                let v = to_chars(p.as_str());
                eq_ignore_ascii_case_exec(v.as_slice(), "none")
            },
            None => false,
        }
    }

    /// Whether the package depends on `dep` (dependencies or dev
    /// dependencies).
    pub fn has_dependency(&self, dep: &str) -> (r: bool)
        ensures
            r == has_dependency_spec(self@, dep@),
    {
        strings_contain(&self.dependencies, dep) || strings_contain(&self.dev_dependencies, dep)
    }

    /// The path of `relative_path` inside the package: the package's
    /// directory joined with it, as the disk checks see it.
    pub fn file_path(&self, relative_path: &str) -> (r: String)
        ensures
            r@ == path_joined(self.path@, relative_path@),
    {
        path_join(self.path.as_str(), relative_path)
    }

    /// Whether a file exists at `relative_path` inside the package: the disk
    /// is asked about the path that [`Package::file_path`] gives. The answer
    /// comes from the disk at the time of the call, so the contract states
    /// nothing of it.
    pub fn file_exists(&self, relative_path: &str) -> (r: bool) {
        let p = self.file_path(relative_path);
        path_is_file(p.as_str())
    }

    /// Whether a directory exists at `relative_path` inside the package: the
    /// disk is asked about the path that [`Package::file_path`] gives. The
    /// answer comes from the disk at the time of the call, so the contract
    /// states nothing of it.
    pub fn dir_exists(&self, relative_path: &str) -> (r: bool) {
        let p = self.file_path(relative_path);
        path_is_dir(p.as_str())
    }

    /// Whether the package resolves its dependencies through the Dart
    /// workspace (`resolution: workspace`).
    pub fn uses_workspace_resolution(&self) -> (r: bool)
        ensures
            r == (opt_string_view(self.resolution) == Some("workspace"@)),
    {
        match &self.resolution {
            Some(r) => str_eq(r.as_str(), "workspace"),
            None => false,
        }
    }
}

// ---------------------------------------------------------------------------
// Filters
// ---------------------------------------------------------------------------

/// The criteria of `f` that need no look at the disk: Flutter or not, the
/// required dependencies, the scope, and the ignored names.
pub open spec fn static_match(p: PackageView, f: PackageFilters) -> bool {
    &&& (f.flutter matches Some(b) ==> p.is_flutter == b)
    &&& match f.depends_on {
        Some(d) => forall|i: int| 0 <= i < d@.len() ==> has_dependency_spec(p, #[trigger] d@[i]@),
        None => true,
    }
    &&& match f.scope {
        Some(s) => views(s@).contains(p.name),
        None => true,
    }
    &&& match f.ignore {
        Some(s) => !views(s@).contains(p.name),
        None => true,
    }
}

/// Whether a package matches `f`, given whether its `dirExists` directory
/// and its `fileExists` file are present.
pub open spec fn matches_with(p: PackageView, f: PackageFilters, dir_ok: bool, file_ok: bool) -> bool {
    &&& (f.dir_exists is Some ==> dir_ok)
    &&& (f.file_exists is Some ==> file_ok)
    &&& static_match(p, f)
}

/// The packages of `pkgs` that match `f`, in order, given the presence of
/// each one's directory and file.
pub open spec fn selected(
    pkgs: Seq<PackageView>,
    f: PackageFilters,
    dir_ok: Seq<bool>,
    file_ok: Seq<bool>,
) -> Seq<PackageView>
    decreases pkgs.len(),
{
    if pkgs.len() == 0 {
        seq![]
    } else {
        let n = pkgs.len() - 1;
        selected(pkgs.drop_last(), f, dir_ok.take(n), file_ok.take(n)) + if matches_with(
            pkgs.last(),
            f,
            dir_ok[n],
            file_ok[n],
        ) {
            seq![pkgs.last()]
        } else {
            seq![]
        }
    }
}

/// Whether a package meets the criteria of `f` that need no look at the
/// disk.
fn matches_static(pkg: &Package, filters: &PackageFilters) -> (r: bool)
    ensures
        r == static_match(pkg@, *filters),
{
    match filters.flutter {
        Some(b) => {
            if pkg.is_flutter != b {
                return false;
            }
        },
        None => {},
    }
    match &filters.depends_on {
        Some(deps) => {
            let mut i: usize = 0;
            while i < deps.len()
                invariant
                    i <= deps.len(),
                    filters.depends_on == Some(*deps),
                    forall|k: int| 0 <= k < i ==> has_dependency_spec(pkg@, #[trigger] deps@[k]@),
                decreases deps.len() - i,
            {
                if !pkg.has_dependency(deps[i].as_str()) {
                    assert(!static_match(pkg@, *filters)) by {
                        let d = filters.depends_on.unwrap();
                        assert(d@[i as int]@ == deps@[i as int]@);
                        assert(!has_dependency_spec(pkg@, d@[i as int]@));
                    }
                    return false;
                }
                i += 1;
            }
        },
        None => {},
    }
    match &filters.scope {
        Some(s) => {
            if !strings_contain(s, pkg.name.as_str()) {
                return false;
            }
        },
        None => {},
    }
    match &filters.ignore {
        Some(s) => {
            if strings_contain(s, pkg.name.as_str()) {
                return false;
            }
        },
        None => {},
    }
    true
}

/// The packages that match the filters, given for each package whether its
/// `dirExists` directory and its `fileExists` file are present.
pub fn apply_filters_given(
    packages: &[Package],
    filters: &PackageFilters,
    dir_ok: &[bool],
    file_ok: &[bool],
) -> (r: Vec<Package>)
    requires
        dir_ok@.len() == packages@.len(),
        file_ok@.len() == packages@.len(),
    ensures
        package_views(r@) == selected(package_views(packages@), *filters, dir_ok@, file_ok@),
{
    let mut out: Vec<Package> = Vec::new();
    let mut i: usize = 0;
    while i < packages.len()
        invariant
            i <= packages.len(),
            dir_ok@.len() == packages@.len(),
            file_ok@.len() == packages@.len(),
            package_views(out@) == selected(
                package_views(packages@).take(i as int),
                *filters,
                dir_ok@.take(i as int),
                file_ok@.take(i as int),
            ),
        decreases packages.len() - i,
    {
        let ghost before = package_views(out@);
        let ghost pv = package_views(packages@).take(i + 1);
        assert(pv.drop_last() =~= package_views(packages@).take(i as int));
        assert(pv.last() == packages@[i as int]@);
        assert(dir_ok@.take(i + 1).take(i as int) =~= dir_ok@.take(i as int));
        assert(file_ok@.take(i + 1).take(i as int) =~= file_ok@.take(i as int));
        let pkg = &packages[i];
        let ok = (filters.dir_exists.is_none() || dir_ok[i]) && (filters.file_exists.is_none()
            || file_ok[i]) && matches_static(pkg, filters);
        if ok {
            out.push(pkg.clone());
            assert(package_views(out@) =~= before.push(packages@[i as int]@));
        }
        i += 1;
    }
    assert(package_views(packages@).take(packages.len() as int) =~= package_views(packages@));
    assert(dir_ok@.take(packages.len() as int) =~= dir_ok@);
    assert(file_ok@.take(packages.len() as int) =~= file_ok@);
    out
}

/// The packages that match the filters, in order. The `dirExists` and
/// `fileExists` criteria are checked on the disk.
pub fn apply_filters(packages: &[Package], filters: &PackageFilters) -> (r: Vec<Package>)
    ensures
        exists|dir_ok: Seq<bool>, file_ok: Seq<bool>|
            dir_ok.len() == packages@.len() && file_ok.len() == packages@.len() && package_views(r@)
                == #[trigger] selected(package_views(packages@), *filters, dir_ok, file_ok),
{
    let mut dir_ok: Vec<bool> = Vec::new();
    let mut file_ok: Vec<bool> = Vec::new();
    let mut i: usize = 0;
    while i < packages.len()
        invariant
            i <= packages.len(),
            dir_ok@.len() == i,
            file_ok@.len() == i,
        decreases packages.len() - i,
    {
        let d = match &filters.dir_exists {
            Some(dir) => packages[i].dir_exists(dir.as_str()),
            None => true,
        };
        let f = match &filters.file_exists {
            Some(file) => packages[i].file_exists(file.as_str()),
            None => true,
        };
        dir_ok.push(d);
        file_ok.push(f);
        i += 1;
    }
    apply_filters_given(packages, filters, dir_ok.as_slice(), file_ok.as_slice())
}

/// The comma-separated names of a `--depends-on` value, each trimmed.
pub open spec fn depends_on_names(d: Seq<char>) -> Seq<Seq<char>> {
    split_char(d, ',').map_values(|s: Seq<char>| trim(s))
}

/// The comma-separated, trimmed names of a flag value.
pub fn split_names(d: &str) -> (r: Vec<String>)
    ensures
        views(r@) == depends_on_names(d@),
{
    let v = to_chars(d);
    let parts = split_on_char(v.as_slice(), ',');
    let mut out: Vec<String> = Vec::new();
    let mut i: usize = 0;
    proof {
        crate::text::lemma_deep_view_chars(parts);
    }
    while i < parts.len()
        invariant
            i <= parts.len(),
            parts.deep_view() == split_char(v@, ','),
            v@ == d@,
            parts.deep_view().len() == parts@.len(),
            forall|m: int| 0 <= m < parts@.len() ==> #[trigger] parts.deep_view()[m] == parts@[m]@,
            views(out@) == depends_on_names(d@).take(i as int),
        decreases parts.len() - i,
    {
        let t = trim_chars(parts[i].as_slice());
        let s = from_chars(t.as_slice());
        let ghost before = views(out@);
        out.push(s);
        assert(views(out@) =~= before.push(trim(parts@[i as int]@)));
        assert(depends_on_names(d@).len() == parts@.len());
        assert(depends_on_names(d@)[i as int] == trim(parts@[i as int]@));
        i += 1;
        assert(depends_on_names(d@).take(i as int) =~= depends_on_names(d@).take(i - 1).push(
            trim(parts@[i - 1]@),
        ));
    }
    assert(depends_on_names(d@).take(parts.len() as int) =~= depends_on_names(d@));
    out
}

/// Filters from exec-style flags: `--depends-on` takes a comma-separated
/// list; there is no scope, ignore or category.
pub fn filters_from_exec_flags(
    depends_on: &Option<String>,
    flutter: Option<bool>,
    file_exists: &Option<String>,
    dir_exists: &Option<String>,
) -> (r: PackageFilters)
    ensures
        r.flutter == flutter,
        opt_string_view(r.dir_exists) == opt_string_view(*dir_exists),
        opt_string_view(r.file_exists) == opt_string_view(*file_exists),
        match *depends_on {
            Some(d) => r.depends_on matches Some(v) && views(v@) == depends_on_names(d@),
            None => r.depends_on is None,
        },
        r.ignore is None,
        r.scope is None,
        r.category is None,
{
    let deps = match depends_on {
        Some(d) => Some(split_names(d.as_str())),
        None => None,
    };
    PackageFilters {
        flutter,
        dir_exists: copy_opt_string(dir_exists),
        file_exists: copy_opt_string(file_exists),
        depends_on: deps,
        ignore: None,
        scope: None,
        category: None,
    }
}

} // verus!

verus! {

/// Filtering keeps exactly the packages that match, in their order: every
/// kept package is one of the input and meets the criteria, every package
/// that matches is kept, and a filter with no criteria keeps them all.
pub proof fn lemma_selected_laws(
    pkgs: Seq<PackageView>,
    f: PackageFilters,
    dir_ok: Seq<bool>,
    file_ok: Seq<bool>,
)
    requires
        dir_ok.len() == pkgs.len(),
        file_ok.len() == pkgs.len(),
    ensures
        selected(pkgs, f, dir_ok, file_ok).len() <= pkgs.len(),
        forall|k: int|
            0 <= k < selected(pkgs, f, dir_ok, file_ok).len() ==> pkgs.contains(
                #[trigger] selected(pkgs, f, dir_ok, file_ok)[k],
            ) && static_match(selected(pkgs, f, dir_ok, file_ok)[k], f),
        forall|k: int|
            0 <= k < pkgs.len() && matches_with(pkgs[k], f, dir_ok[k], file_ok[k]) ==> selected(
                pkgs,
                f,
                dir_ok,
                file_ok,
            ).contains(#[trigger] pkgs[k]),
        crate::config::no_filters(f) ==> selected(pkgs, f, dir_ok, file_ok) == pkgs,
    decreases pkgs.len(),
{
    if pkgs.len() > 0 {
        let n = pkgs.len() - 1;
        let rest = pkgs.drop_last();
        let d = dir_ok.take(n);
        let fo = file_ok.take(n);
        lemma_selected_laws(rest, f, d, fo);
        let s = selected(pkgs, f, dir_ok, file_ok);
        let sr = selected(rest, f, d, fo);
        let tail = if matches_with(pkgs.last(), f, dir_ok[n], file_ok[n]) {
            seq![pkgs.last()]
        } else {
            seq![]
        };
        assert(s == sr + tail);
        assert forall|k: int| 0 <= k < s.len() implies pkgs.contains(#[trigger] s[k]) && static_match(s[k], f) by {
            if k < sr.len() {
                assert(s[k] == sr[k]);
                let j = choose|j: int| 0 <= j < rest.len() && rest[j] == sr[k];
                assert(pkgs[j] == rest[j]);
            } else {
                assert(s[k] == pkgs[n]);
            }
        }
        assert forall|k: int| 0 <= k < pkgs.len() && matches_with(pkgs[k], f, dir_ok[k], file_ok[k]) implies s.contains(#[trigger] pkgs[k]) by {
            if k < n {
                assert(rest[k] == pkgs[k]);
                assert(d[k] == dir_ok[k] && fo[k] == file_ok[k]);
                assert(sr.contains(rest[k]));
                let j = choose|j: int| 0 <= j < sr.len() && sr[j] == rest[k];
                assert(s[j] == sr[j]);
            } else {
                assert(s[sr.len() as int] == pkgs[n]);
            }
        }
        if crate::config::no_filters(f) {
            assert(s =~= pkgs);
        }
    }
}

/// Every package that filtering keeps meets each criterion that needs no
/// look at the disk: it is a Flutter package or not as asked, it depends
/// (as a dependency or dev dependency) on every name of `--depends-on`, its
/// name is in the scope where one is given, and it is not ignored. A
/// package that misses any one of the `--depends-on` names, is ignored, or
/// lies outside the scope, is not kept.
pub proof fn lemma_filter_criteria(
    pkgs: Seq<PackageView>,
    f: PackageFilters,
    dir_ok: Seq<bool>,
    file_ok: Seq<bool>,
)
    requires
        dir_ok.len() == pkgs.len(),
        file_ok.len() == pkgs.len(),
    ensures
        forall|k: int|
            0 <= k < selected(pkgs, f, dir_ok, file_ok).len() ==> {
                let q = #[trigger] selected(pkgs, f, dir_ok, file_ok)[k];
                &&& (f.flutter matches Some(b) ==> q.is_flutter == b)
                &&& (f.depends_on matches Some(d) ==> forall|i: int|
                    0 <= i < d@.len() ==> q.dependencies.contains(#[trigger] d@[i]@)
                        || q.dev_dependencies.contains(d@[i]@))
                &&& (f.scope matches Some(sc) ==> exists|i: int| 0 <= i < sc@.len() && #[trigger] sc@[i]@ == q.name)
                &&& (f.ignore matches Some(ig) ==> forall|i: int| 0 <= i < ig@.len() ==> #[trigger] ig@[i]@ != q.name)
            },
        forall|j: int, i: int|
            0 <= j < pkgs.len() && f.depends_on is Some && 0 <= i < f.depends_on.unwrap()@.len()
                && !pkgs[j].dependencies.contains(#[trigger] f.depends_on.unwrap()@[i]@)
                && !pkgs[j].dev_dependencies.contains(f.depends_on.unwrap()@[i]@) ==> !selected(pkgs, f, dir_ok, file_ok).contains(
                #[trigger] pkgs[j],
            ),
        forall|j: int, i: int|
            0 <= j < pkgs.len() && f.ignore is Some && 0 <= i < f.ignore.unwrap()@.len()
                && #[trigger] f.ignore.unwrap()@[i]@ == pkgs[j].name ==> !selected(pkgs, f, dir_ok, file_ok).contains(#[trigger] pkgs[j]),
        forall|j: int|
            0 <= j < pkgs.len() && f.scope is Some && (forall|i: int|
                0 <= i < f.scope.unwrap()@.len() ==> #[trigger] f.scope.unwrap()@[i]@ != pkgs[j].name) ==> !selected(pkgs, f, dir_ok, file_ok).contains(#[trigger] pkgs[j]),
{
    lemma_selected_laws(pkgs, f, dir_ok, file_ok);
    let s = selected(pkgs, f, dir_ok, file_ok);
    assert forall|k: int| 0 <= k < s.len() implies {
        let q = #[trigger] s[k];
        &&& (f.flutter matches Some(b) ==> q.is_flutter == b)
        &&& (f.depends_on matches Some(d) ==> forall|i: int|
            0 <= i < d@.len() ==> q.dependencies.contains(#[trigger] d@[i]@) || q.dev_dependencies.contains(d@[i]@))
        &&& (f.scope matches Some(sc) ==> exists|i: int| 0 <= i < sc@.len() && #[trigger] sc@[i]@ == q.name)
        &&& (f.ignore matches Some(ig) ==> forall|i: int| 0 <= i < ig@.len() ==> #[trigger] ig@[i]@ != q.name)
    } by {
        let q = s[k];
        assert(static_match(q, f));
        if let Some(d) = f.depends_on {
            assert forall|i: int| 0 <= i < d@.len() implies q.dependencies.contains(#[trigger] d@[i]@)
                || q.dev_dependencies.contains(d@[i]@) by {
                assert(has_dependency_spec(q, d@[i]@));
            }
        }
        if let Some(sc) = f.scope {
            assert(views(sc@).contains(q.name));
            let i = choose|i: int| 0 <= i < views(sc@).len() && views(sc@)[i] == q.name;
            assert(views(sc@)[i] == sc@[i]@);
        }
        if let Some(ig) = f.ignore {
            assert forall|i: int| 0 <= i < ig@.len() implies #[trigger] ig@[i]@ != q.name by {
                assert(views(ig@)[i] == ig@[i]@);
            }
        }
    }
    assert forall|j: int, i: int|
        0 <= j < pkgs.len() && f.depends_on is Some && 0 <= i < f.depends_on.unwrap()@.len()
            && !pkgs[j].dependencies.contains(#[trigger] f.depends_on.unwrap()@[i]@)
            && !pkgs[j].dev_dependencies.contains(f.depends_on.unwrap()@[i]@) implies !s.contains(#[trigger] pkgs[j]) by {
        if s.contains(pkgs[j]) {
            let k = choose|k: int| 0 <= k < s.len() && s[k] == pkgs[j];
            assert(s[k] == pkgs[j]);
        }
    }
    assert forall|j: int, i: int|
        0 <= j < pkgs.len() && f.ignore is Some && 0 <= i < f.ignore.unwrap()@.len()
            && #[trigger] f.ignore.unwrap()@[i]@ == pkgs[j].name implies !s.contains(#[trigger] pkgs[j]) by {
        if s.contains(pkgs[j]) {
            let k = choose|k: int| 0 <= k < s.len() && s[k] == pkgs[j];
            assert(s[k] == pkgs[j]);
        }
    }
    assert forall|j: int|
        0 <= j < pkgs.len() && f.scope is Some && (forall|i: int|
            0 <= i < f.scope.unwrap()@.len() ==> #[trigger] f.scope.unwrap()@[i]@ != pkgs[j].name) implies !s.contains(#[trigger] pkgs[j]) by {
        if s.contains(pkgs[j]) {
            let k = choose|k: int| 0 <= k < s.len() && s[k] == pkgs[j];
            assert(s[k] == pkgs[j]);
            let sc = f.scope.unwrap();
            let i = choose|i: int| 0 <= i < sc@.len() && #[trigger] sc@[i]@ == s[k].name;
            assert(sc@[i]@ != pkgs[j].name);
        }
    }
}

} // verus!

verus! {

// ---------------------------------------------------------------------------
// Reading a pubspec
// ---------------------------------------------------------------------------

/// A dependency's value in `pubspec.yaml`, as far as it matters here.
#[derive(Debug, Clone)]
pub enum DepSpec {
    /// A constraint written as text, such as `^1.0.0` or `any`.
    Text(String),
    /// A mapping (a path, git, hosted or SDK dependency), with its `version`
    /// where that is text.
    Mapping(Option<String>),
    /// Anything else (an empty value, a number, a list).
    Other,
}

/// The fields of a `pubspec.yaml` that describe a package.
#[derive(Debug, Clone)]
pub struct Pubspec {
    pub name: String,
    pub version: Option<String>,
    pub publish_to: Option<String>,
    /// Whether the file has a top-level `flutter` section.
    pub has_flutter_section: bool,
    pub dependencies: Vec<(String, DepSpec)>,
    pub dev_dependencies: Vec<(String, DepSpec)>,
    pub resolution: Option<String>,
}

/// A trimmed constraint, unless it is empty or `any`.
pub open spec fn real_constraint(s: Seq<char>) -> Option<Seq<char>> {
    let t = trim(s);
    if t.len() == 0 || t == "any"@ {
        None
    } else {
        Some(t)
    }
}

/// The version constraint of a dependency: its text, or the `version` of
/// its mapping, trimmed; none for `any`, an empty text, or anything else.
pub open spec fn constraint_spec(d: DepSpec) -> Option<Seq<char>> {
    match d {
        DepSpec::Text(s) => real_constraint(s@),
        DepSpec::Mapping(Some(v)) => real_constraint(v@),
        _ => None,
    }
}

fn real_constraint_exec(s: &str) -> (r: Option<String>)
    ensures
        opt_string_view(r) == real_constraint(s@),
{
    let t = trim_chars(to_chars(s).as_slice());
    if t.len() == 0 || crate::text::chars_eq_str(t.as_slice(), "any") {
        None
    } else {
        Some(from_chars(t.as_slice()))
    }
}

/// The version constraint of a dependency's value.
pub fn extract_version_constraint(value: &DepSpec) -> (r: Option<String>)
    ensures
        opt_string_view(r) == constraint_spec(*value),
{
    match value {
        DepSpec::Text(s) => real_constraint_exec(s.as_str()),
        DepSpec::Mapping(Some(v)) => real_constraint_exec(v.as_str()),
        _ => None,
    }
}

pub open spec fn dep_views(v: Seq<(String, DepSpec)>) -> Seq<(Seq<char>, DepSpec)> {
    v.map_values(|d: (String, DepSpec)| (d.0@, d.1))
}

/// `m` with `name` set to `c`: in place where it is there, at the end
/// otherwise.
pub open spec fn set_constraint(m: Seq<(Seq<char>, Seq<char>)>, name: Seq<char>, c: Seq<char>) -> Seq<(Seq<char>, Seq<char>)> {
    if exists|k: int| 0 <= k < m.len() && #[trigger] m[k].0 == name {
        let k = choose|k: int| 0 <= k < m.len() && #[trigger] m[k].0 == name;
        m.update(k, (name, c))
    } else {
        m.push((name, c))
    }
}

/// The constraints gathered from dependencies `deps` into `m`, in order; a
/// later constraint on a name replaces an earlier one.
pub open spec fn gather(m: Seq<(Seq<char>, Seq<char>)>, deps: Seq<(Seq<char>, DepSpec)>) -> Seq<(Seq<char>, Seq<char>)>
    decreases deps.len(),
{
    if deps.len() == 0 {
        m
    } else {
        let prev = gather(m, deps.drop_last());
        match constraint_spec(deps.last().1) {
            Some(c) => set_constraint(prev, deps.last().0, c),
            None => prev,
        }
    }
}

/// Whether the names of `m` are distinct.
pub open spec fn distinct_names(m: Seq<(Seq<char>, Seq<char>)>) -> bool {
    forall|a: int, b: int| 0 <= a < b < m.len() ==> #[trigger] m[a].0 != #[trigger] m[b].0
}

proof fn lemma_set_constraint_at(m: Seq<(Seq<char>, Seq<char>)>, name: Seq<char>, c: Seq<char>, k: int)
    requires
        distinct_names(m),
        0 <= k < m.len(),
        m[k].0 == name,
    ensures
        set_constraint(m, name, c) == m.update(k, (name, c)),
{
    assert(exists|j: int| 0 <= j < m.len() && #[trigger] m[j].0 == name);
    let w = choose|j: int| 0 <= j < m.len() && #[trigger] m[j].0 == name;
    if w != k {
        if w < k {
            assert(m[w].0 != m[k].0);
        } else {
            assert(m[k].0 != m[w].0);
        }
    }
}

fn set_constraint_exec(m: &mut Vec<(String, String)>, name: &str, c: String)
    requires
        distinct_names(pair_views(old(m)@)),
    ensures
        pair_views(final(m)@) == set_constraint(pair_views(old(m)@), name@, c@),
        distinct_names(pair_views(final(m)@)),
{
    let ghost mv = pair_views(m@);
    let mut k: usize = 0;
    while k < m.len()
        invariant
            k <= m@.len(),
            mv == pair_views(m@),
            mv == pair_views(old(m)@),
            distinct_names(mv),
            forall|j: int| 0 <= j < k ==> mv[j].0 != name@,
        decreases m@.len() - k,
    {
        if str_eq(m[k].0.as_str(), name) {
            assert(mv[k as int].0 == name@);
            let nm = name.to_owned();
            m.set(k, (nm, c));
            proof {
                lemma_set_constraint_at(mv, name@, c@, k as int);
                assert(pair_views(m@) =~= mv.update(k as int, (name@, c@)));
            }
            return;
        }
        k += 1;
    }
    let nm = name.to_owned();
    m.push((nm, c));
    assert(pair_views(m@) =~= mv.push((name@, c@)));
}

fn gather_exec(m: &mut Vec<(String, String)>, deps: &Vec<(String, DepSpec)>)
    requires
        distinct_names(pair_views(old(m)@)),
    ensures
        pair_views(final(m)@) == gather(pair_views(old(m)@), dep_views(deps@)),
        distinct_names(pair_views(final(m)@)),
{
    let ghost start = pair_views(m@);
    let mut i: usize = 0;
    while i < deps.len()
        invariant
            i <= deps@.len(),
            distinct_names(pair_views(m@)),
            pair_views(m@) == gather(start, dep_views(deps@).take(i as int)),
        decreases deps@.len() - i,
    {
        assert(dep_views(deps@).take(i + 1).drop_last() =~= dep_views(deps@).take(i as int));
        assert(dep_views(deps@).take(i + 1).last() == (deps@[i as int].0@, deps@[i as int].1));
        match extract_version_constraint(&deps[i].1) {
            Some(c) => set_constraint_exec(m, deps[i].0.as_str(), c),
            None => {},
        }
        i += 1;
    }
    assert(dep_views(deps@).take(deps@.len() as int) =~= dep_views(deps@));
}

/// The names of dependencies `deps`, in order.
pub open spec fn dep_name_views(deps: Seq<(String, DepSpec)>) -> Seq<Seq<char>> {
    deps.map_values(|d: (String, DepSpec)| d.0@)
}

fn dep_names(deps: &Vec<(String, DepSpec)>) -> (r: Vec<String>)
    ensures
        views(r@) == dep_name_views(deps@),
{
    let mut out: Vec<String> = Vec::new();
    let mut i: usize = 0;
    while i < deps.len()
        invariant
            i <= deps@.len(),
            out@.len() == i,
            forall|j: int| 0 <= j < i ==> #[trigger] out@[j]@ == deps@[j].0@,
        decreases deps@.len() - i,
    {
        let nm = deps[i].0.clone();
        out.push(nm);
        i += 1;
    }
    assert(views(out@) =~= dep_name_views(deps@));
    out
}

impl Package {
    /// The package described by a `pubspec.yaml` in directory `path`: its
    /// name, version, `publish_to` and resolution; the names of its
    /// dependencies and dev dependencies; the version constraints of both
    /// (a dev dependency's replacing a dependency's of the same name); and
    /// whether it is a Flutter package (a `flutter` section, or a
    /// dependency named `flutter`).
    pub fn from_pubspec(path: &str, p: Pubspec) -> (r: Self)
        ensures
            r.name@ == p.name@,
            r.path@ == path@,
            opt_string_view(r.version) == opt_string_view(p.version),
            opt_string_view(r.publish_to) == opt_string_view(p.publish_to),
            opt_string_view(r.resolution) == opt_string_view(p.resolution),
            views(r.dependencies@) == dep_name_views(p.dependencies@),
            views(r.dev_dependencies@) == dep_name_views(p.dev_dependencies@),
            pair_views(r.dependency_versions@) == gather(
                gather(seq![], dep_views(p.dependencies@)),
                dep_views(p.dev_dependencies@),
            ),
            r.is_flutter == (p.has_flutter_section || views(r.dependencies@).contains("flutter"@)),
    {
        let dependencies = dep_names(&p.dependencies);
        let dev_dependencies = dep_names(&p.dev_dependencies);
        let mut versions: Vec<(String, String)> = Vec::new();
        assert(pair_views(versions@) =~= Seq::<(Seq<char>, Seq<char>)>::empty());
        gather_exec(&mut versions, &p.dependencies);
        gather_exec(&mut versions, &p.dev_dependencies);
        let flutter_dep = strings_contain(&dependencies, "flutter");
        Package {
            name: p.name,
            path: path.to_owned(),
            version: p.version,
            is_flutter: p.has_flutter_section || flutter_dep,
            publish_to: p.publish_to,
            dependencies,
            dev_dependencies,
            dependency_versions: versions,
            resolution: p.resolution,
        }
    }
}


/// The names of packages `v`.
pub open spec fn name_keys(v: Seq<PackageView>) -> Seq<Seq<char>> {
    v.map_values(|p: PackageView| p.name)
}

/// Packages `packages` sorted by name, packages of one name kept in their
/// order: the package at place `k` is `packages[order[k]]`, for an `order`
/// that is the stable sort of the names.
pub fn sort_by_name(packages: &[Package]) -> (r: Vec<Package>)
    ensures
        r@.len() == packages@.len(),
        exists|order: Seq<usize>|
            crate::order::stably_sorted(name_keys(package_views(packages@)), order)
            && forall|k: int| 0 <= k < order.len() ==> #[trigger] r@[k]@ == packages@[order[k] as int]@,
{
    let mut keys: Vec<Vec<char>> = Vec::new();
    let mut i: usize = 0;
    while i < packages.len()
        invariant
            i <= packages@.len(),
            keys@.len() == i,
            forall|j: int| 0 <= j < i ==> #[trigger] keys@[j]@ == packages@[j].name@,
        decreases packages@.len() - i,
    {
        keys.push(to_chars(packages[i].name.as_str()));
        i += 1;
    }
    proof {
        crate::text::lemma_deep_view_chars(keys);
        assert(keys.deep_view() =~= name_keys(package_views(packages@)));
    }
    let order = crate::order::stable_order(&keys);
    let mut out: Vec<Package> = Vec::new();
    let mut k: usize = 0;
    while k < order.len()
        invariant
            k <= order@.len(),
            order@.len() == packages@.len(),
            forall|j: int| 0 <= j < order@.len() ==> #[trigger] order@[j] < packages@.len(),
            out@.len() == k,
            forall|j: int| 0 <= j < k ==> #[trigger] out@[j]@ == packages@[order@[j] as int]@,
        decreases order@.len() - k,
    {
        let p = packages[order[k]].clone();
        out.push(p);
        k += 1;
    }
    out
}
} // verus!
