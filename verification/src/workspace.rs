//! The loaded workspace: where it lives, its configuration and its
//! packages, and the environment it gives to scripts.
use vstd::prelude::*;
use crate::config::MelosConfig;
use crate::package::{Package, PackageView, pair_views};
use crate::text::{str_eq, views};

use crate::text::owned;

verus! {

/// Where the configuration was read from.
#[derive(Debug, Clone)]
pub enum ConfigSource {
    /// A `melos.yaml` file (the 6.x layout).
    MelosYaml(String),
    /// The `melos:` section of a root `pubspec.yaml` (the 7.x layout).
    PubspecYaml(String),
}

impl ConfigSource {
    /// The path of the configuration file.
    pub fn path(&self) -> (r: &str)
        ensures
            r@ == match self {
                ConfigSource::MelosYaml(p) => p@,
                ConfigSource::PubspecYaml(p) => p@,
            },
    {
        match self {
            ConfigSource::MelosYaml(p) => p.as_str(),
            ConfigSource::PubspecYaml(p) => p.as_str(),
        }
    }

    /// Whether the workspace uses the `melos.yaml` layout.
    pub fn is_legacy(&self) -> (r: bool)
        ensures
            r == (self is MelosYaml),
    {
        match self {
            ConfigSource::MelosYaml(_) => true,
            ConfigSource::PubspecYaml(_) => false,
        }
    }
}

/// A workspace with its configuration and discovered packages.
#[derive(Debug)]
pub struct Workspace {
    /// The workspace's root directory.
    pub root_path: String,
    pub config_source: ConfigSource,
    pub config: MelosConfig,
    /// The packages, sorted by name.
    pub packages: Vec<Package>,
    /// The SDK to use in place of the one on the path.
    pub sdk_path: Option<String>,
    /// Problems found in the configuration while loading it.
    pub warnings: Vec<String>,
}

/// The variables that every script gets: `MELOS_ROOT_PATH`.
pub open spec fn env_vars_spec(root: Seq<char>) -> Seq<(Seq<char>, Seq<char>)> {
    seq![("MELOS_ROOT_PATH"@, root)]
}

/// The variables for a script run in a package: the workspace's, then
/// `MELOS_PACKAGE_NAME`, `MELOS_PACKAGE_PATH` and, where the package has a
/// version, `MELOS_PACKAGE_VERSION`.
pub open spec fn package_env_vars_spec(root: Seq<char>, p: PackageView) -> Seq<(Seq<char>, Seq<char>)> {
    env_vars_spec(root) + seq![("MELOS_PACKAGE_NAME"@, p.name), ("MELOS_PACKAGE_PATH"@, p.path)]
        + match p.version {
        Some(v) => seq![("MELOS_PACKAGE_VERSION"@, v)],
        None => seq![],
    }
}

impl Workspace {
    /// The environment variables that scripts and commands get.
    pub fn env_vars(&self) -> (r: Vec<(String, String)>)
        ensures
            pair_views(r@) == env_vars_spec(self.root_path@),
    {
        let mut env: Vec<(String, String)> = Vec::new();
        env.push((owned("MELOS_ROOT_PATH"), owned(self.root_path.as_str())));
        assert(pair_views(env@) =~= env_vars_spec(self.root_path@));
        env
    }

    /// The environment variables for a script run in `pkg`.
    pub fn package_env_vars(&self, pkg: &Package) -> (r: Vec<(String, String)>)
        ensures
            pair_views(r@) == package_env_vars_spec(self.root_path@, pkg@),
    {
        let mut env = self.env_vars();
        let ghost e0 = pair_views(env@);
        env.push((owned("MELOS_PACKAGE_NAME"), owned(pkg.name.as_str())));
        env.push((owned("MELOS_PACKAGE_PATH"), owned(pkg.path.as_str())));
        match &pkg.version {
            Some(v) => {
                env.push((owned("MELOS_PACKAGE_VERSION"), owned(v.as_str())));
            },
            None => {},
        }
        assert(pair_views(env@) =~= package_env_vars_spec(self.root_path@, pkg@));
        env
    }
}

} // verus!
