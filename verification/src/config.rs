//! The workspace configuration (`melos.yaml`, or the `melos:` section of a
//! root `pubspec.yaml`) as plain values, and its validation.
//!
//! Maps of the configuration file are held as vectors of key/value pairs in
//! the order in which the file lists them.
use vstd::prelude::*;
use crate::flutter_build::BuildCommandConfig;
use crate::text::{
    append_chars, append_str, contains, contains_str, from_chars, join, join_strings, slice_chars,
    str_eq, to_chars, trim, trim_chars, views,
};

use crate::text::owned;

verus! {

// ---------------------------------------------------------------------------
// Package filters
// ---------------------------------------------------------------------------

/// Package-level filters (the `packageFilters` block of a script, or the
/// filter flags of a command).
#[derive(Debug, Clone)]
pub struct PackageFilters {
    /// Only Flutter packages (`true`) or only Dart packages (`false`).
    pub flutter: Option<bool>,
    /// Only packages in which this directory exists.
    pub dir_exists: Option<String>,
    /// Only packages in which this file exists.
    pub file_exists: Option<String>,
    /// Only packages that depend on all of these packages.
    pub depends_on: Option<Vec<String>>,
    /// Leave out packages with these names.
    pub ignore: Option<Vec<String>>,
    /// Only packages with these names.
    pub scope: Option<Vec<String>>,
    /// Only packages of these categories.
    pub category: Option<Vec<String>>,
}

/// Filters that select every package.
pub open spec fn no_filters(f: PackageFilters) -> bool {
    &&& f.flutter is None
    &&& f.dir_exists is None
    &&& f.file_exists is None
    &&& f.depends_on is None
    &&& f.ignore is None
    &&& f.scope is None
    &&& f.category is None
}

impl Default for PackageFilters {
    fn default() -> (r: Self)
        ensures
            no_filters(r),
    {
        PackageFilters {
            flutter: None,
            dir_exists: None,
            file_exists: None,
            depends_on: None,
            ignore: None,
            scope: None,
            category: None,
        }
    }
}

// ---------------------------------------------------------------------------
// Scripts
// ---------------------------------------------------------------------------

/// A script with its metadata and filters.
#[derive(Debug)]
pub struct ScriptConfig {
    /// The command to run.
    pub run: String,
    /// What the script does, for people.
    pub description: Option<String>,
    /// Which packages the script applies to.
    pub package_filters: Option<PackageFilters>,
    /// Environment variables set for the script.
    pub env: Vec<(String, String)>,
}

/// A script: a bare command, or a command with metadata.
#[derive(Debug)]
pub enum ScriptEntry {
    Simple(String),
    Full(Box<ScriptConfig>),
}

impl ScriptEntry {
    /// The command of the script.
    pub open spec fn command_spec(&self) -> Seq<char> {
        match self {
            ScriptEntry::Simple(c) => c@,
            ScriptEntry::Full(c) => c.run@,
        }
    }

    /// The categories that the script's filters name.
    pub open spec fn categories_spec(&self) -> Seq<Seq<char>> {
        match self {
            ScriptEntry::Simple(_) => seq![],
            ScriptEntry::Full(c) => match c.package_filters {
                Some(f) => match f.category {
                    Some(v) => views(v@),
                    None => seq![],
                },
                None => seq![],
            },
        }
    }

    /// The command to run.
    pub fn run_command(&self) -> (r: &str)
        ensures
            r@ == self.command_spec(),
    {
        match self {
            ScriptEntry::Simple(cmd) => cmd.as_str(),
            ScriptEntry::Full(config) => config.run.as_str(),
        }
    }

    /// The description, where the script has one.
    pub fn description(&self) -> (r: Option<&str>)
        ensures
            match self {
                ScriptEntry::Simple(_) => r is None,
                ScriptEntry::Full(c) => match c.description {
                    Some(d) => r matches Some(x) && x@ == d@,
                    None => r is None,
                },
            },
    {
        match self {
            ScriptEntry::Simple(_) => None,
            ScriptEntry::Full(config) => match &config.description {
                Some(d) => Some(d.as_str()),
                None => None,
            },
        }
    }

    /// The package filters, where the script has them.
    pub fn package_filters(&self) -> (r: Option<&PackageFilters>)
        ensures
            match self {
                ScriptEntry::Simple(_) => r is None,
                ScriptEntry::Full(c) => match c.package_filters {
                    Some(f) => r == Some(&f),
                    None => r is None,
                },
            },
    {
        match self {
            ScriptEntry::Simple(_) => None,
            ScriptEntry::Full(config) => config.package_filters.as_ref(),
        }
    }

    /// The environment variables of the script (none for a bare command).
    pub fn env(&self) -> (r: &[(String, String)])
        ensures
            match self {
                ScriptEntry::Simple(_) => r@.len() == 0,
                ScriptEntry::Full(c) => r@ == c.env@,
            },
    {
        match self {
            ScriptEntry::Simple(_) => &[],
            ScriptEntry::Full(config) => config.env.as_slice(),
        }
    }
}

// ---------------------------------------------------------------------------
// Repository
// ---------------------------------------------------------------------------

/// Where the repository lives, for links to commits in changelogs.
#[derive(Debug, Clone)]
pub struct RepositoryConfig {
    /// The repository's web address, such as `https://github.com/org/repo`.
    pub url: String,
}

/// `s` without its trailing `c` characters (`str::trim_end_matches`).
pub open spec fn trim_end_char(s: Seq<char>, c: char) -> Seq<char>
    decreases s.len(),
{
    if s.len() > 0 && s.last() == c {
        trim_end_char(s.drop_last(), c)
    } else {
        s
    }
}

/// `v` without its trailing `c` characters.
fn trim_end_char_exec(v: &[char], c: char) -> (r: Vec<char>)
    ensures
        r@ == trim_end_char(v@, c),
{
    let mut n = v.len();
    assert(v@.take(n as int) =~= v@);
    while n > 0 && v[n - 1] == c
        invariant
            n <= v.len(),
            trim_end_char(v@.take(n as int), c) == trim_end_char(v@, c),
        decreases n,
    {
        assert(v@.take(n as int).drop_last() == v@.take(n - 1));
        n -= 1;
    }
    assert(trim_end_char(v@.take(n as int), c) == v@.take(n as int));
    slice_chars(v, 0, n)
}

/// Why a repository given as an object was refused.
#[derive(Debug, Clone, Copy, PartialEq, Eq, Structural)]
pub enum RepositoryError {
    /// The object has no `owner`.
    MissingOwner,
    /// The object has no `name`.
    MissingName,
}

/// The host of a repository type: GitLab, Bitbucket and Azure DevOps by
/// name, GitHub otherwise.
pub open spec fn host_of(repo_type: Option<Seq<char>>) -> Seq<char> {
    match repo_type {
        Some(t) => if t == "gitlab"@ {
            "https://gitlab.com"@
        } else if t == "bitbucket"@ {
            "https://bitbucket.org"@
        } else if t == "azure"@ {
            "https://dev.azure.com"@
        } else {
            "https://github.com"@
        },
        None => "https://github.com"@,
    }
}

/// The address that an object form gives: `<base>/<owner>/<name>`, where
/// the base is the origin without trailing slashes, or the type's host.
pub open spec fn object_url(repo_type: Option<Seq<char>>, origin: Option<Seq<char>>, owner: Seq<char>, name: Seq<char>) -> Seq<char> {
    let base = match origin {
        Some(o) => trim_end_char(o, '/'),
        None => host_of(repo_type),
    };
    base + "/"@ + owner + "/"@ + name
}

pub open spec fn opt_chars(o: Option<&str>) -> Option<Seq<char>> {
    match o {
        Some(s) => Some(s@),
        None => None,
    }
}

impl RepositoryConfig {
    /// `<url>/commit/<hash>`, with the URL's trailing slashes removed.
    pub open spec fn commit_url_spec(&self, hash: Seq<char>) -> Seq<char> {
        trim_end_char(self.url@, '/') + "/commit/"@ + hash
    }

    /// The address of the commit `hash` in the repository.
    pub fn commit_url(&self, hash: &str) -> (r: String)
        ensures
            r@ == self.commit_url_spec(hash@),
    {
        let v = to_chars(self.url.as_str());
        let mut out = trim_end_char_exec(v.as_slice(), '/');
        append_str(&mut out, "/commit/");
        append_str(&mut out, hash);
        from_chars(out.as_slice())
    }

    /// A repository given by its address.
    pub fn from_url(url: &str) -> (r: Self)
        ensures
            r.url@ == url@,
    {
        RepositoryConfig { url: url.to_owned() }
    }

    /// A repository given as an object of `type`, `origin`, `owner` and
    /// `name`; the owner and the name are required.
    pub fn from_object(
        repo_type: Option<&str>,
        origin: Option<&str>,
        owner: Option<&str>,
        name: Option<&str>,
    ) -> (r: Result<Self, RepositoryError>)
        ensures
            owner is None ==> r == Err::<Self, RepositoryError>(RepositoryError::MissingOwner),
            owner is Some && name is None ==> r == Err::<Self, RepositoryError>(RepositoryError::MissingName),
            owner is Some && name is Some ==> (r matches Ok(c) && c.url@ == object_url(
                opt_chars(repo_type),
                opt_chars(origin),
                owner.unwrap()@,
                name.unwrap()@,
            )),
    {
        let owner = match owner {
            Some(o) => o,
            None => return Err(RepositoryError::MissingOwner),
        };
        let name = match name {
            Some(n) => n,
            None => return Err(RepositoryError::MissingName),
        };
        let mut out: Vec<char> = match origin {
            Some(o) => {
                let v = to_chars(o);
                trim_end_char_exec(v.as_slice(), '/')
            },
            None => {
                let host = match repo_type {
                    Some(t) => if str_eq(t, "gitlab") {
                        "https://gitlab.com"
                    } else if str_eq(t, "bitbucket") {
                        "https://bitbucket.org"
                    } else if str_eq(t, "azure") {
                        "https://dev.azure.com"
                    } else {
                        "https://github.com"
                    },
                    None => "https://github.com",
                };
                to_chars(host)
            },
        };
        append_str(&mut out, "/");
        append_str(&mut out, owner);
        append_str(&mut out, "/");
        append_str(&mut out, name);
        Ok(RepositoryConfig { url: from_chars(out.as_slice()) })
    }
}

// ---------------------------------------------------------------------------
// Command configuration
// ---------------------------------------------------------------------------

/// Commands to run before and after a command.
#[derive(Debug, Clone)]
pub struct LifecycleHooks {
    pub pre: Option<String>,
    pub post: Option<String>,
}

/// The `command` section.
#[derive(Debug)]
pub struct CommandConfig {
    pub version: Option<VersionCommandConfig>,
    pub bootstrap: Option<BootstrapCommandConfig>,
    pub clean: Option<CleanCommandConfig>,
    pub publish: Option<PublishCommandConfig>,
    pub test: Option<TestCommandConfig>,
    pub build: Option<BuildCommandConfig>,
}

/// The `version` command's configuration.
#[derive(Debug)]
pub struct VersionCommandConfig {
    /// The branch that versioning must run on.
    pub branch: Option<String>,
    /// The commit message template (`{new_version}`, `{package_name}`).
    pub message: Option<String>,
    /// Whether changelogs show commit scopes.
    pub include_scopes: Option<bool>,
    /// Whether a tag is created for each release.
    pub tag_release: Option<bool>,
    /// Whether changelogs are written.
    pub changelog: Option<bool>,
    pub changelog_config: Option<ChangelogConfig>,
    pub hooks: Option<VersionHooks>,
    /// Whether changelog entries link to their commits.
    pub link_to_commits: Option<bool>,
    /// Whether a workspace-wide changelog is written.
    pub workspace_changelog: Option<bool>,
    /// Whether commits and tags are pushed afterwards.
    pub git_push: Option<bool>,
    /// Whether all packages share one version.
    pub coordinated: Option<bool>,
}

/// `o`, or `d` where it is absent.
pub open spec fn flag_or(o: Option<bool>, d: bool) -> bool {
    match o {
        Some(b) => b,
        None => d,
    }
}

impl VersionCommandConfig {
    /// The commit message template; `chore(release): publish packages` when
    /// none is configured.
    pub fn message_template(&self) -> (r: &str)
        ensures
            match self.message {
                Some(m) => r@ == m@,
                None => r@ == "chore(release): publish packages"@,
            },
    {
        match &self.message {
            Some(m) => m.as_str(),
            None => "chore(release): publish packages",
        }
    }

    /// Whether changelogs are written (by default they are).
    pub fn should_changelog(&self) -> (r: bool)
        ensures
            r == flag_or(self.changelog, true),
    {
        match self.changelog {
            Some(b) => b,
            None => true,
        }
    }

    /// Whether releases are tagged (by default they are).
    pub fn should_tag(&self) -> (r: bool)
        ensures
            r == flag_or(self.tag_release, true),
    {
        match self.tag_release {
            Some(b) => b,
            None => true,
        }
    }

    /// Whether a workspace changelog is written (by default it is).
    pub fn should_workspace_changelog(&self) -> (r: bool)
        ensures
            r == flag_or(self.workspace_changelog, true),
    {
        match self.workspace_changelog {
            Some(b) => b,
            None => true,
        }
    }

    /// Whether commits and tags are pushed (by default they are).
    pub fn should_git_push(&self) -> (r: bool)
        ensures
            r == flag_or(self.git_push, true),
    {
        match self.git_push {
            Some(b) => b,
            None => true,
        }
    }

    /// Whether versioning is coordinated (by default it is not).
    pub fn is_coordinated(&self) -> (r: bool)
        ensures
            r == flag_or(self.coordinated, false),
    {
        match self.coordinated {
            Some(b) => b,
            None => false,
        }
    }
}

/// Changelog options.
#[derive(Debug)]
pub struct ChangelogConfig {
    pub include_commit_body: Option<bool>,
    pub include_commit_id: Option<bool>,
}

/// Hooks of the `version` command.
#[derive(Debug)]
pub struct VersionHooks {
    pub pre_commit: Option<String>,
    pub post_commit: Option<String>,
}

/// A dependency given in the shared bootstrap configuration.
#[derive(Debug, Clone)]
pub enum SharedDependency {
    /// A version constraint such as `^1.0.0`.
    Constraint(String),
    /// No constraint at all (a null entry): any version.
    Unconstrained,
    /// A git, path or other structured source.
    Complex,
}

/// The `bootstrap` command's configuration.
#[derive(Debug)]
pub struct BootstrapCommandConfig {
    pub run_pub_get_in_parallel: Option<bool>,
    pub enforce_versions_for_dependency_resolution: Option<bool>,
    pub enforce_lockfile: Option<bool>,
    pub run_pub_get_offline: Option<bool>,
    pub dependency_override_paths: Option<Vec<String>>,
    /// SDK constraints shared by all packages.
    pub environment: Option<Vec<(String, String)>>,
    /// Dependency constraints shared by all packages.
    pub dependencies: Option<Vec<(String, SharedDependency)>>,
    /// Dev dependency constraints shared by all packages.
    pub dev_dependencies: Option<Vec<(String, SharedDependency)>>,
    pub hooks: Option<LifecycleHooks>,
}

/// The `clean` command's configuration.
#[derive(Debug)]
pub struct CleanCommandConfig {
    pub hooks: Option<CleanHooks>,
}

/// Hooks of the `clean` command.
#[derive(Debug)]
pub struct CleanHooks {
    pub post: Option<String>,
}

/// The `publish` command's configuration.
#[derive(Debug)]
pub struct PublishCommandConfig {
    pub hooks: Option<LifecycleHooks>,
}

/// The `test` command's configuration.
#[derive(Debug)]
pub struct TestCommandConfig {
    pub hooks: Option<LifecycleHooks>,
}

// ---------------------------------------------------------------------------
// Top-level configuration and its validation
// ---------------------------------------------------------------------------

/// The workspace configuration.
#[derive(Debug)]
pub struct MelosConfig {
    /// The workspace's name.
    pub name: String,
    /// Glob patterns of the package directories.
    pub packages: Vec<String>,
    pub repository: Option<RepositoryConfig>,
    /// A Flutter or Dart SDK to use in place of the one on the path.
    pub sdk_path: Option<String>,
    pub command: Option<CommandConfig>,
    /// The scripts, by name.
    pub scripts: Vec<(String, ScriptEntry)>,
    /// Glob patterns of packages that no command selects.
    pub ignore: Option<Vec<String>>,
    /// Categories: a name and the package name patterns it covers.
    pub categories: Vec<(String, Vec<String>)>,
    pub use_root_as_package: Option<bool>,
    pub discover_nested_workspaces: Option<bool>,
}

/// The first elements of pairs.
pub open spec fn pair_keys<V>(v: Seq<(String, V)>) -> Seq<Seq<char>> {
    v.map_values(|p: (String, V)| p.0@)
}

/// Whether a command runs in each package (`melos exec` or `melos-rs exec`).
pub open spec fn is_exec_style(cmd: Seq<char>) -> bool {
    let t = trim(cmd);
    contains(t, "melos exec"@) || contains(t, "melos-rs exec"@)
}

pub open spec fn no_packages_warning() -> Seq<char> {
    "No package paths configured. No packages will be discovered. Add glob patterns to the `packages` field."@
}

pub open spec fn exec_separator_warning(name: Seq<char>) -> Seq<char> {
    "Script '"@ + name
        + "' looks like an exec command but has no `--` separator. The command may not be parsed correctly. Expected format: `melos exec [flags] -- <command>`"@
}

pub open spec fn empty_run_warning(name: Seq<char>) -> Seq<char> {
    "Script '"@ + name + "' has an empty `run` command."@
}

/// The defined categories as a list for people: `(none)` when there are none.
pub open spec fn available_categories(keys: Seq<Seq<char>>) -> Seq<char> {
    if keys.len() == 0 {
        "(none)"@
    } else {
        join(keys, ", "@)
    }
}

pub open spec fn undefined_category_warning(
    name: Seq<char>,
    cat: Seq<char>,
    keys: Seq<Seq<char>>,
) -> Seq<char> {
    "Script '"@ + name + "' references category '"@ + cat
        + "' which is not defined in `categories`. Available categories: "@
        + available_categories(keys)
}

/// One warning for each category of `cats` that `keys` does not define, in
/// order.
pub open spec fn category_warnings(
    name: Seq<char>,
    cats: Seq<Seq<char>>,
    keys: Seq<Seq<char>>,
) -> Seq<Seq<char>>
    decreases cats.len(),
{
    if cats.len() == 0 {
        seq![]
    } else {
        category_warnings(name, cats.drop_last(), keys) + if keys.contains(cats.last()) {
            seq![]
        } else {
            seq![undefined_category_warning(name, cats.last(), keys)]
        }
    }
}

/// The warnings about one script: an exec command without a standalone
/// `--`, an empty command, and categories that are not defined.
pub open spec fn script_warnings(
    name: Seq<char>,
    e: ScriptEntry,
    keys: Seq<Seq<char>>,
) -> Seq<Seq<char>> {
    let cmd = e.command_spec();
    (if is_exec_style(cmd) && !contains(cmd, " -- "@) {
        seq![exec_separator_warning(name)]
    } else {
        seq![]
    }) + (if trim(cmd).len() == 0 {
        seq![empty_run_warning(name)]
    } else {
        seq![]
    }) + category_warnings(name, e.categories_spec(), keys)
}

/// The warnings about the scripts, script by script.
pub open spec fn scripts_warnings(
    scripts: Seq<(String, ScriptEntry)>,
    keys: Seq<Seq<char>>,
) -> Seq<Seq<char>>
    decreases scripts.len(),
{
    if scripts.len() == 0 {
        seq![]
    } else {
        scripts_warnings(scripts.drop_last(), keys) + script_warnings(
            scripts.last().0@,
            scripts.last().1,
            keys,
        )
    }
}

impl MelosConfig {
    /// The warnings that validation gives: no package paths, then the
    /// warnings of each script.
    pub open spec fn warnings_spec(&self) -> Seq<Seq<char>> {
        (if self.packages@.len() == 0 {
            seq![no_packages_warning()]
        } else {
            seq![]
        }) + scripts_warnings(self.scripts@, pair_keys(self.categories@))
    }

    /// Warnings about suspicious but accepted configuration: no package
    /// paths, exec scripts without a `--` separator, empty commands, and
    /// references to undefined categories.
    pub fn validate(&self) -> (r: Vec<String>)
        ensures
            views(r@) == self.warnings_spec(),
    {
        let mut warnings: Vec<String> = Vec::new();
        let ghost keys = pair_keys(self.categories@);
        if self.packages.len() == 0 {
            let w = owned(
                "No package paths configured. No packages will be discovered. Add glob patterns to the `packages` field.",
            );
            warnings.push(w);
            assert(views(warnings@) =~= seq![no_packages_warning()]);
        } else {
            assert(views(warnings@) =~= Seq::<Seq<char>>::empty());
        }
        let ghost start = views(warnings@);
        let key_list = category_keys(&self.categories);
        let available = if key_list.len() == 0 {
            owned("(none)")
        } else {
            join_strings(&key_list, ", ")
        };
        assert(available@ == available_categories(keys));
        let mut i: usize = 0;
        while i < self.scripts.len()
            invariant
                i <= self.scripts.len(),
                keys == pair_keys(self.categories@),
                views(key_list@) == keys,
                available@ == available_categories(keys),
                start == (if self.packages@.len() == 0 {
                    seq![no_packages_warning()]
                } else {
                    seq![]
                }),
                views(warnings@) == start + scripts_warnings(self.scripts@.take(i as int), keys),
            decreases self.scripts.len() - i,
        {
            let ghost before = views(warnings@);
            let name = self.scripts[i].0.as_str();
            let entry = &self.scripts[i].1;
            script_warnings_into(&mut warnings, name, entry, &key_list, available.as_str());
            assert(self.scripts@.take(i + 1).drop_last() == self.scripts@.take(i as int));
            assert(self.scripts@.take(i + 1).last() == self.scripts@[i as int]);
            i += 1;
            assert(start + scripts_warnings(self.scripts@.take(i as int), keys) == (start
                + scripts_warnings(self.scripts@.take(i - 1), keys)) + script_warnings(
                self.scripts@[i - 1].0@,
                self.scripts@[i - 1].1,
                keys,
            ));
        }
        assert(self.scripts@.take(i as int) == self.scripts@);
        warnings
    }
}

/// The names of the categories, in order.
fn category_keys(cats: &Vec<(String, Vec<String>)>) -> (r: Vec<String>)
    ensures
        views(r@) == pair_keys(cats@),
{
    let mut out: Vec<String> = Vec::new();
    let mut i: usize = 0;
    while i < cats.len()
        invariant
            i <= cats.len(),
            views(out@) == pair_keys(cats@).take(i as int),
        decreases cats.len() - i,
    {
        let k = owned(cats[i].0.as_str());
        let ghost before = views(out@);
        out.push(k);
        assert(views(out@) =~= before.push(k@));
        i += 1;
        assert(pair_keys(cats@).take(i as int) =~= pair_keys(cats@).take(i - 1).push(cats@[i - 1].0@));
    }
    assert(pair_keys(cats@).take(cats.len() as int) =~= pair_keys(cats@));
    out
}

/// Whether `v` holds a string equal to `s`.
pub fn contains_string(v: &Vec<String>, s: &str) -> (r: bool)
    ensures
        r == views(v@).contains(s@),
{
    let mut i: usize = 0;
    while i < v.len()
        invariant
            i <= v.len(),
            forall|k: int| 0 <= k < i ==> views(v@)[k] != s@,
        decreases v.len() - i,
    {
        if crate::text::str_eq(v[i].as_str(), s) {
            assert(views(v@)[i as int] == s@);
            return true;
        }
        i += 1;
    }
    assert(!views(v@).contains(s@)) by {
        if views(v@).contains(s@) {
            let k = choose|k: int| 0 <= k < views(v@).len() && views(v@)[k] == s@;
            assert(views(v@)[k] != s@);
        }
    }
    false
}

/// Pushes a message made of `a`, `b` and `c`.
fn push_message(out: &mut Vec<String>, a: &str, b: &str, c: &str)
    ensures
        views(final(out)@) == views(old(out)@).push(a@ + b@ + c@),
{
    let mut m: Vec<char> = Vec::new();
    append_str(&mut m, a);
    append_str(&mut m, b);
    append_str(&mut m, c);
    let s = from_chars(m.as_slice());
    let ghost before = views(out@);
    out.push(s);
    assert(views(out@) =~= before.push(a@ + b@ + c@));
}

/// Appends the warnings about one script.
fn script_warnings_into(
    out: &mut Vec<String>,
    name: &str,
    entry: &ScriptEntry,
    keys: &Vec<String>,
    available: &str,
)
    requires
        available@ == available_categories(views(keys@)),
    ensures
        views(final(out)@) == views(old(out)@) + script_warnings(name@, *entry, views(keys@)),
{
    let ghost start = views(out@);
    let cmd = entry.run_command();
    let cv = to_chars(cmd);
    let t = trim_chars(cv.as_slice());
    let exec_style = contains_str(t.as_slice(), "melos exec") || contains_str(
        t.as_slice(),
        "melos-rs exec",
    );
    if exec_style && !contains_str(cv.as_slice(), " -- ") {
        push_message(
            out,
            "Script '",
            name,
            "' looks like an exec command but has no `--` separator. The command may not be parsed correctly. Expected format: `melos exec [flags] -- <command>`",
        );
    }
    let ghost mid1 = views(out@);
    assert(mid1 == start + (if is_exec_style(cv@) && !contains(cv@, " -- "@) {
        seq![exec_separator_warning(name@)]
    } else {
        seq![]
    }));
    if t.len() == 0 {
        push_message(out, "Script '", name, "' has an empty `run` command.");
    }
    let ghost mid2 = views(out@);
    assert(mid2 == mid1 + (if trim(cv@).len() == 0 {
        seq![empty_run_warning(name@)]
    } else {
        seq![]
    }));
    match entry.package_filters() {
        Some(f) => match &f.category {
            Some(cats) => {
                let mut i: usize = 0;
                assert(cats@.take(0) =~= Seq::<String>::empty());
                assert(views(cats@.take(0)) =~= Seq::<Seq<char>>::empty());
                assert(views(out@) =~= mid2 + category_warnings(name@, views(cats@.take(0)), views(keys@)));
                while i < cats.len()
                    invariant
                        i <= cats.len(),
                        available@ == available_categories(views(keys@)),
                        views(out@) == mid2 + category_warnings(
                            name@,
                            views(cats@.take(i as int)),
                            views(keys@),
                        ),
                    decreases cats.len() - i,
                {
                    let ghost before = views(out@);
                    let c = cats[i].as_str();
                    let ghost cs = views(cats@.take(i + 1));
                    assert(cs.drop_last() =~= views(cats@.take(i as int)));
                    assert(cs.last() == c@);
                    if !contains_string(keys, c) {
                        let mut m: Vec<char> = Vec::new();
                        append_str(&mut m, "Script '");
                        append_str(&mut m, name);
                        append_str(&mut m, "' references category '");
                        append_str(&mut m, c);
                        append_str(
                            &mut m,
                            "' which is not defined in `categories`. Available categories: ",
                        );
                        append_str(&mut m, available);
                        let s = from_chars(m.as_slice());
                        out.push(s);
                        assert(s@ == undefined_category_warning(name@, c@, views(keys@)));
                        assert(views(out@) =~= before.push(s@));
                    }
                    i += 1;
                }
                assert(cats@.take(cats.len() as int) =~= cats@);
                assert(entry.categories_spec() == views(cats@));
            },
            None => {
                assert(entry.categories_spec() =~= Seq::<Seq<char>>::empty());
                assert(views(out@) =~= mid2 + Seq::<Seq<char>>::empty());
            },
        },
        None => {
            assert(entry.categories_spec() =~= Seq::<Seq<char>>::empty());
            assert(views(out@) =~= mid2 + Seq::<Seq<char>>::empty());
        },
    }
}


// ---------------------------------------------------------------------------
// The 7.x layout: a root `pubspec.yaml` with a `melos:` section
// ---------------------------------------------------------------------------

/// The `melos:` section of a root `pubspec.yaml`.
#[derive(Debug)]
pub struct MelosSection {
    /// A name in place of the pubspec's own.
    pub name: Option<String>,
    /// Package glob patterns in place of the `workspace:` paths.
    pub packages: Option<Vec<String>>,
    pub repository: Option<RepositoryConfig>,
    pub command: Option<CommandConfig>,
    pub scripts: Vec<(String, ScriptEntry)>,
    pub categories: Vec<(String, Vec<String>)>,
}

pub open spec fn no_package_paths_message() -> Seq<char> {
    "No package paths found in pubspec.yaml: neither `melos.packages` nor `workspace:` is set.\n\nHint: Add a `workspace:` field listing your package paths, or add `packages:` under `melos:`."@
}

/// The workspace configuration of a root `pubspec.yaml` named `name`, with
/// the Dart workspace paths `workspace` and the section `melos`: the name of
/// the section where it gives one, else the pubspec's; the packages of the
/// section where it gives them, else the workspace paths; an error where
/// there are neither. The rest comes from the section.
pub fn config_from_pubspec(name: String, workspace: Option<Vec<String>>, melos: MelosSection) -> (r: Result<MelosConfig, String>)
    ensures
        r is Err <==> (melos.packages is None && workspace is None),
        match r {
            Ok(c) => {
                &&& c.name == (match melos.name {
                    Some(n) => n,
                    None => name,
                })
                &&& c.packages == (match melos.packages {
                    Some(p) => p,
                    None => workspace.unwrap(),
                })
                &&& c.repository == melos.repository
                &&& c.command == melos.command
                &&& c.scripts == melos.scripts
                &&& c.categories == melos.categories
                &&& c.sdk_path is None
                &&& c.ignore is None
                &&& c.use_root_as_package is None
                &&& c.discover_nested_workspaces is None
            },
            Err(e) => e@ == no_package_paths_message(),
        },
{
    let MelosSection { name: section_name, packages, repository, command, scripts, categories } = melos;
    let packages = match packages {
        Some(p) => p,
        None => match workspace {
            Some(w) => w,
            None => {
                let mut out: Vec<char> = Vec::new();
                append_str(
                    &mut out,
                    "No package paths found in pubspec.yaml: neither `melos.packages` nor `workspace:` is set.\n\nHint: Add a `workspace:` field listing your package paths, or add `packages:` under `melos:`.",
                );
                return Err(from_chars(out.as_slice()));
            },
        },
    };
    let name = match section_name {
        Some(n) => n,
        None => name,
    };
    Ok(
        MelosConfig {
            name,
            packages,
            repository,
            sdk_path: None,
            command,
            scripts,
            ignore: None,
            categories,
            use_root_as_package: None,
            discover_nested_workspaces: None,
        },
    )
}

} // verus!
