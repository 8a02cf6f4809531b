//! The `build` command's rules: which platforms and flavors to build, the
//! `flutter build` command line, where the artifacts land, and the
//! simulator post-build command.
use vstd::prelude::*;
use crate::config::{LifecycleHooks, PackageFilters};
use crate::text::{
    append_chars, append_str, ascii_upper, contains, contains_str, from_chars, join, join_strings,
    replace_all, replace_str, str_eq, to_chars, views,
};

use crate::text::owned;

verus! {

// ---------------------------------------------------------------------------
// Modes and platforms
// ---------------------------------------------------------------------------

/// How Flutter compiles an app.
#[derive(Debug, Clone, Copy, PartialEq, Eq, Structural)]
pub enum BuildMode {
    Release,
    Debug,
    Profile,
}

pub open spec fn mode_name(m: BuildMode) -> Seq<char> {
    match m {
        BuildMode::Release => "release"@,
        BuildMode::Debug => "debug"@,
        BuildMode::Profile => "profile"@,
    }
}

impl BuildMode {
    /// The mode's name: `release`, `debug` or `profile`.
    pub fn as_str(&self) -> (r: &'static str)
        ensures
            r@ == mode_name(*self),
    {
        match self {
            BuildMode::Release => "release",
            BuildMode::Debug => "debug",
            BuildMode::Profile => "profile",
        }
    }
}

impl Default for BuildMode {
    fn default() -> (r: Self)
        ensures
            r == BuildMode::Release,
    {
        BuildMode::Release
    }
}

/// A platform that can be built for.
#[derive(Debug, Clone, Copy, PartialEq, Eq, Structural)]
pub enum Platform {
    Android,
    Ios,
}

pub open spec fn platform_name(p: Platform) -> Seq<char> {
    match p {
        Platform::Android => "android"@,
        Platform::Ios => "ios"@,
    }
}

pub open spec fn default_build_type_spec(p: Platform) -> Seq<char> {
    match p {
        Platform::Android => "appbundle"@,
        Platform::Ios => "ipa"@,
    }
}

impl Platform {
    /// The platform's name: `android` or `ios`.
    pub fn as_str(&self) -> (r: &'static str)
        ensures
            r@ == platform_name(*self),
    {
        match self {
            Platform::Android => "android",
            Platform::Ios => "ios",
        }
    }

    /// The directory that a package needs for this platform.
    pub fn dir_name(&self) -> (r: &'static str)
        ensures
            r@ == platform_name(*self),
    {
        match self {
            Platform::Android => "android",
            Platform::Ios => "ios",
        }
    }

    /// The `flutter build` target built by default: `appbundle` or `ipa`.
    pub fn default_build_type(&self) -> (r: &'static str)
        ensures
            r@ == default_build_type_spec(*self),
    {
        match self {
            Platform::Android => "appbundle",
            Platform::Ios => "ipa",
        }
    }
}

// ---------------------------------------------------------------------------
// Configuration
// ---------------------------------------------------------------------------

/// A flavor: its entry point and mode.
#[derive(Debug, Clone)]
pub struct FlavorConfig {
    pub target: String,
    pub mode: BuildMode,
}

/// The simulator post-build step of a platform.
#[derive(Debug, Clone)]
pub struct SimulatorConfig {
    pub enabled: bool,
    /// A command template (see [`expand_simulator_template`]).
    pub command: Option<String>,
}

/// Android build options.
#[derive(Debug, Clone)]
pub struct AndroidBuildConfig {
    pub types: Vec<String>,
    pub default_type: String,
    pub extra_args: Vec<String>,
    pub simulator: Option<SimulatorConfig>,
}

/// iOS build options.
#[derive(Debug, Clone)]
pub struct IosBuildConfig {
    pub extra_args: Vec<String>,
    pub simulator: Option<SimulatorConfig>,
}

/// The `command.build` section.
#[derive(Debug)]
pub struct BuildCommandConfig {
    /// The flavors, by name.
    pub flavors: Vec<(String, FlavorConfig)>,
    pub default_flavor: Option<String>,
    pub android: Option<AndroidBuildConfig>,
    pub ios: Option<IosBuildConfig>,
    pub package_filters: Option<PackageFilters>,
    pub hooks: Option<LifecycleHooks>,
}

/// Arguments of the `build` command.
#[derive(Debug)]
pub struct BuildArgs {
    pub android: bool,
    pub ios: bool,
    pub all: bool,
    pub flavor: Vec<String>,
    pub build_type: Option<String>,
    pub simulator: bool,
    pub export_options_plist: Option<String>,
    pub dry_run: bool,
    pub fail_fast: bool,
    pub concurrency: usize,
    pub version_bump: Option<String>,
    pub build_number_bump: bool,
    pub filters: PackageFilters,
}

// ---------------------------------------------------------------------------
// Errors
// ---------------------------------------------------------------------------

/// Why a build cannot be set up.
#[derive(Debug, Clone)]
pub enum BuildError {
    UnknownFlavor { flavor: String, available: Vec<String> },
    DefaultFlavorUndefined { flavor: String },
    NoFlavorSelected { available: Vec<String> },
    NoSimulatorConfig { platform: Platform },
    SimulatorDisabled { platform: Platform },
    NoSimulatorCommand { platform: Platform },
    AabPathUnresolved { platform: Platform, flavor: String },
    ApkPathUnresolved { platform: Platform, flavor: String },
    InvalidVersionBump { value: String },
}

/// The mathematical value of a [`BuildError`].
pub enum BuildErrorView {
    UnknownFlavor(Seq<char>, Seq<Seq<char>>),
    DefaultFlavorUndefined(Seq<char>),
    NoFlavorSelected(Seq<Seq<char>>),
    NoSimulatorConfig(Platform),
    SimulatorDisabled(Platform),
    NoSimulatorCommand(Platform),
    AabPathUnresolved(Platform, Seq<char>),
    ApkPathUnresolved(Platform, Seq<char>),
    InvalidVersionBump(Seq<char>),
}

impl View for BuildError {
    type V = BuildErrorView;

    open spec fn view(&self) -> BuildErrorView {
        match self {
            BuildError::UnknownFlavor { flavor, available } => BuildErrorView::UnknownFlavor(
                flavor@,
                views(available@),
            ),
            BuildError::DefaultFlavorUndefined { flavor } => BuildErrorView::DefaultFlavorUndefined(
                flavor@,
            ),
            BuildError::NoFlavorSelected { available } => BuildErrorView::NoFlavorSelected(
                views(available@),
            ),
            BuildError::NoSimulatorConfig { platform } => BuildErrorView::NoSimulatorConfig(
                *platform,
            ),
            BuildError::SimulatorDisabled { platform } => BuildErrorView::SimulatorDisabled(
                *platform,
            ),
            BuildError::NoSimulatorCommand { platform } => BuildErrorView::NoSimulatorCommand(
                *platform,
            ),
            BuildError::AabPathUnresolved { platform, flavor } => BuildErrorView::AabPathUnresolved(
                *platform,
                flavor@,
            ),
            BuildError::ApkPathUnresolved { platform, flavor } => BuildErrorView::ApkPathUnresolved(
                *platform,
                flavor@,
            ),
            BuildError::InvalidVersionBump { value } => BuildErrorView::InvalidVersionBump(value@),
        }
    }
}

/// The message that an error shows.
pub open spec fn build_error_message(e: BuildErrorView) -> Seq<char> {
    match e {
        BuildErrorView::UnknownFlavor(f, av) => "Unknown flavor '"@ + f + "'. Available: "@ + join(
            av,
            ", "@,
        ),
        BuildErrorView::DefaultFlavorUndefined(f) => "Default flavor '"@ + f
            + "' is not defined in build.flavors"@,
        BuildErrorView::NoFlavorSelected(av) => "No --flavor specified and no defaultFlavor configured. Available: "@
            + join(av, ", "@),
        BuildErrorView::NoSimulatorConfig(p) => "--simulator requested but no simulator config found for "@
            + platform_name(p) + ".\nAdd a `command.build."@ + platform_name(p)
            + ".simulator` section to melos.yaml."@,
        BuildErrorView::SimulatorDisabled(p) => "--simulator requested but simulator is disabled for "@
            + platform_name(p) + ".\nSet `command.build."@ + platform_name(p)
            + ".simulator.enabled: true` in melos.yaml."@,
        BuildErrorView::NoSimulatorCommand(p) => "--simulator requested but no command template found for "@
            + platform_name(p) + ".\nSet `command.build."@ + platform_name(p)
            + ".simulator.command` in melos.yaml."@,
        BuildErrorView::AabPathUnresolved(p, f) => "Cannot resolve AAB path for "@ + platform_name(p)
            + " "@ + f + " (only Android appbundle is supported)"@,
        BuildErrorView::ApkPathUnresolved(p, f) => "Cannot resolve APK path for "@ + platform_name(p)
            + " "@ + f + " (only Android APK is supported)"@,
        BuildErrorView::InvalidVersionBump(v) => "Invalid --version-bump value '"@ + v
            + "'. Must be one of: patch, minor, major"@,
    }
}

impl BuildError {
    /// The message for people.
    pub fn message(&self) -> (r: String)
        ensures
            r@ == build_error_message(self@),
    {
        let mut m: Vec<char> = Vec::new();
        match self {
            BuildError::UnknownFlavor { flavor, available } => {
                append_str(&mut m, "Unknown flavor '");
                append_str(&mut m, flavor.as_str());
                append_str(&mut m, "'. Available: ");
                let j = join_strings(available, ", ");
                append_str(&mut m, j.as_str());
            },
            BuildError::DefaultFlavorUndefined { flavor } => {
                append_str(&mut m, "Default flavor '");
                append_str(&mut m, flavor.as_str());
                append_str(&mut m, "' is not defined in build.flavors");
            },
            BuildError::NoFlavorSelected { available } => {
                append_str(
                    &mut m,
                    "No --flavor specified and no defaultFlavor configured. Available: ",
                );
                let j = join_strings(available, ", ");
                append_str(&mut m, j.as_str());
            },
            BuildError::NoSimulatorConfig { platform } => {
                append_str(&mut m, "--simulator requested but no simulator config found for ");
                append_str(&mut m, platform.as_str());
                append_str(&mut m, ".\nAdd a `command.build.");
                append_str(&mut m, platform.as_str());
                append_str(&mut m, ".simulator` section to melos.yaml.");
            },
            BuildError::SimulatorDisabled { platform } => {
                append_str(&mut m, "--simulator requested but simulator is disabled for ");
                append_str(&mut m, platform.as_str());
                append_str(&mut m, ".\nSet `command.build.");
                append_str(&mut m, platform.as_str());
                append_str(&mut m, ".simulator.enabled: true` in melos.yaml.");
            },
            BuildError::NoSimulatorCommand { platform } => {
                append_str(&mut m, "--simulator requested but no command template found for ");
                append_str(&mut m, platform.as_str());
                append_str(&mut m, ".\nSet `command.build.");
                append_str(&mut m, platform.as_str());
                append_str(&mut m, ".simulator.command` in melos.yaml.");
            },
            BuildError::AabPathUnresolved { platform, flavor } => {
                append_str(&mut m, "Cannot resolve AAB path for ");
                append_str(&mut m, platform.as_str());
                append_str(&mut m, " ");
                append_str(&mut m, flavor.as_str());
                append_str(&mut m, " (only Android appbundle is supported)");
            },
            BuildError::ApkPathUnresolved { platform, flavor } => {
                append_str(&mut m, "Cannot resolve APK path for ");
                append_str(&mut m, platform.as_str());
                append_str(&mut m, " ");
                append_str(&mut m, flavor.as_str());
                append_str(&mut m, " (only Android APK is supported)");
            },
            BuildError::InvalidVersionBump { value } => {
                append_str(&mut m, "Invalid --version-bump value '");
                append_str(&mut m, value.as_str());
                append_str(&mut m, "'. Must be one of: patch, minor, major");
            },
        }
        from_chars(m.as_slice())
    }
}

// ---------------------------------------------------------------------------
// The flutter build command
// ---------------------------------------------------------------------------

/// The words of `flutter build <type> -t <target> --<mode> --flavor <name>`
/// followed by the extra arguments.
pub open spec fn flutter_build_words(
    build_type: Seq<char>,
    flavor: FlavorConfig,
    flavor_name: Seq<char>,
    extra: Seq<Seq<char>>,
) -> Seq<Seq<char>> {
    seq![
        "flutter"@,
        "build"@,
        build_type,
        "-t"@,
        flavor.target@,
        "--"@ + mode_name(flavor.mode),
        "--flavor"@,
        flavor_name,
    ] + extra
}

/// Appends a copy of `s` to a list of strings.
fn push_owned(out: &mut Vec<String>, s: &str)
    ensures
        views(final(out)@) == views(old(out)@).push(s@),
{
    let ghost before = views(out@);
    out.push(owned(s));
    assert(views(out@) =~= before.push(s@));
}

/// Assembles `flutter build <type> -t <target> --<mode> --flavor <name>`
/// followed by the extra arguments, separated by single spaces. The
/// platform does not appear in the command.
pub fn build_flutter_command(
    platform: Platform,
    build_type: &str,
    flavor: &FlavorConfig,
    flavor_name: &str,
    extra_args: &[String],
) -> (r: String)
    ensures
        r@ == join(flutter_build_words(build_type@, *flavor, flavor_name@, views(extra_args@)), " "@),
{
    let mut parts: Vec<String> = Vec::new();
    push_owned(&mut parts, "flutter");
    push_owned(&mut parts, "build");
    push_owned(&mut parts, build_type);
    push_owned(&mut parts, "-t");
    push_owned(&mut parts, flavor.target.as_str());
    let mut mode_flag: Vec<char> = Vec::new();
    append_str(&mut mode_flag, "--");
    append_str(&mut mode_flag, flavor.mode.as_str());
    let mf = from_chars(mode_flag.as_slice());
    push_owned(&mut parts, mf.as_str());
    push_owned(&mut parts, "--flavor");
    push_owned(&mut parts, flavor_name);
    let ghost head = views(parts@);
    assert(head =~= flutter_build_words(build_type@, *flavor, flavor_name@, seq![]));
    let mut i: usize = 0;
    while i < extra_args.len()
        invariant
            i <= extra_args.len(),
            views(parts@) == head + views(extra_args@).take(i as int),
        decreases extra_args.len() - i,
    {
        push_owned(&mut parts, extra_args[i].as_str());
        i += 1;
        assert(views(extra_args@).take(i as int) =~= views(extra_args@).take(i - 1).push(
            extra_args@[i - 1]@,
        ));
        assert(head + views(extra_args@).take(i as int) =~= (head + views(extra_args@).take(
            i - 1,
        )).push(extra_args@[i - 1]@));
    }
    assert(views(extra_args@).take(extra_args.len() as int) =~= views(extra_args@));
    assert(views(parts@) =~= flutter_build_words(
        build_type@,
        *flavor,
        flavor_name@,
        views(extra_args@),
    ));
    join_strings(&parts, " ")
}

// ---------------------------------------------------------------------------
// Artifact paths
// ---------------------------------------------------------------------------

/// The upper-case form of a character as `char::to_uppercase` gives it.
pub uninterp spec fn unicode_upper(c: char) -> Seq<char>;

/// The upper-case form of `c`: one character for ASCII, the Unicode mapping
/// otherwise.
pub open spec fn upper_of(c: char) -> Seq<char> {
    if (c as u32) < 128 {
        seq![ascii_upper(c)]
    } else {
        unicode_upper(c)
    }
}

/// `char::to_uppercase`, collected into a string. An ASCII character maps to
/// its ASCII upper-case form (itself where it is no lower-case letter); what
/// any other character maps to is named, not stated.
#[verifier::external_body]
fn char_to_uppercase(c: char) -> (r: String)
    ensures
        (c as u32) < 128 ==> r@ == seq![ascii_upper(c)],
        (c as u32) >= 128 ==> r@ == unicode_upper(c),
{
    c.to_uppercase().to_string()
}

/// `s` with its first character in upper case.
pub open spec fn capitalize_first_spec(s: Seq<char>) -> Seq<char> {
    if s.len() == 0 {
        s
    } else {
        upper_of(s[0]) + s.skip(1)
    }
}

/// Capitalizes the first character: `release` becomes `Release`.
pub fn capitalize_first(s: &str) -> (r: String)
    ensures
        r@ == capitalize_first_spec(s@),
{
    let v = to_chars(s);
    if v.len() == 0 {
        return owned(s);
    }
    let first = char_to_uppercase(v[0]);
    let mut out: Vec<char> = Vec::new();
    append_str(&mut out, first.as_str());
    let mut i: usize = 1;
    while i < v.len()
        invariant
            1 <= i <= v.len(),
            out@ == upper_of(v@[0]) + v@.subrange(1, i as int),
        decreases v.len() - i,
    {
        out.push(v[i]);
        i += 1;
        assert(v@.subrange(1, i as int) == v@.subrange(1, i - 1).push(v@[i - 1]));
    }
    assert(v@.subrange(1, v.len() as int) == v@.skip(1));
    from_chars(out.as_slice())
}

/// Where Flutter writes an Android artifact: an app bundle under
/// `build/app/outputs/bundle/<flavor><Mode>/`, an APK under
/// `build/app/outputs/flutter-apk/`. Other types, and iOS, have no fixed
/// path.
pub open spec fn artifact_path(
    p: Platform,
    build_type: Seq<char>,
    flavor: Seq<char>,
    m: BuildMode,
) -> Option<Seq<char>> {
    match p {
        Platform::Android => if build_type == "appbundle"@ {
            Some(
                "build/app/outputs/bundle/"@ + flavor + capitalize_first_spec(mode_name(m))
                    + "/app-"@ + flavor + "-"@ + mode_name(m) + ".aab"@,
            )
        } else if build_type == "apk"@ {
            Some(
                "build/app/outputs/flutter-apk/app-"@ + flavor + "-"@ + mode_name(m) + ".apk"@,
            )
        } else {
            None
        },
        Platform::Ios => None,
    }
}

/// The path of the artifact that a build produces, where it is fixed.
pub fn resolve_artifact_path(
    platform: Platform,
    build_type: &str,
    flavor_name: &str,
    mode: &BuildMode,
) -> (r: Option<String>)
    ensures
        match r {
            Some(s) => artifact_path(platform, build_type@, flavor_name@, *mode) == Some(s@),
            None => artifact_path(platform, build_type@, flavor_name@, *mode) is None,
        },
{
    let mode_str = mode.as_str();
    match platform {
        Platform::Android => {
            if str_eq(build_type, "appbundle") {
                let cap = capitalize_first(mode_str);
                let mut m: Vec<char> = Vec::new();
                append_str(&mut m, "build/app/outputs/bundle/");
                append_str(&mut m, flavor_name);
                append_str(&mut m, cap.as_str());
                append_str(&mut m, "/app-");
                append_str(&mut m, flavor_name);
                append_str(&mut m, "-");
                append_str(&mut m, mode_str);
                append_str(&mut m, ".aab");
                Some(from_chars(m.as_slice()))
            } else if str_eq(build_type, "apk") {
                let mut m: Vec<char> = Vec::new();
                append_str(&mut m, "build/app/outputs/flutter-apk/app-");
                append_str(&mut m, flavor_name);
                append_str(&mut m, "-");
                append_str(&mut m, mode_str);
                append_str(&mut m, ".apk");
                Some(from_chars(m.as_slice()))
            } else {
                None
            }
        },
        Platform::Ios => None,
    }
}

// ---------------------------------------------------------------------------
// Simulator command templates
// ---------------------------------------------------------------------------

/// What `Path::parent` gives for a path: the path without its last
/// component (`None` for a root or an empty path).
pub uninterp spec fn path_parent_of(p: Seq<char>) -> Option<Seq<char>>;

/// The directory of a path: its parent, or nothing where it has none.
pub open spec fn parent_dir(p: Seq<char>) -> Seq<char> {
    match path_parent_of(p) {
        Some(d) => d,
        None => Seq::empty(),
    }
}

/// `Path::parent` of a path given as text, as text. The contract names its
/// result (it follows the platform's path rules, and depends on the path
/// alone).
#[verifier::external_body]
fn path_parent(p: &str) -> (r: Option<String>)
    ensures
        match r {
            Some(d) => path_parent_of(p@) == Some(d@),
            None => path_parent_of(p@) is None,
        },
{
    match std::path::Path::new(p).parent() {
        Some(q) => Some(q.to_string_lossy().into_owned()),
        None => None,
    }
}

/// The template with `{flavor}`, `{mode}` and `{configuration}` filled in;
/// the configuration is `Debug-<flavor>`.
pub open spec fn substituted_template(t: Seq<char>, f: Seq<char>, m: BuildMode) -> Seq<char> {
    replace_all(
        replace_all(replace_all(t, "{flavor}"@, f), "{mode}"@, mode_name(m)),
        "{configuration}"@,
        "Debug-"@ + f,
    )
}

/// An artifact placeholder and `{output_dir}` filled in.
pub open spec fn filled(r: Seq<char>, placeholder: Seq<char>, path: Seq<char>, dir: Seq<char>) -> Seq<char> {
    replace_all(replace_all(r, placeholder, path), "{output_dir}"@, dir)
}

/// The error that expanding a template gives, if any: an `{aab_path}` or,
/// failing that, an `{apk_path}` placeholder whose artifact has no fixed
/// path.
pub open spec fn expand_error(t: Seq<char>, p: Platform, f: Seq<char>, m: BuildMode) -> Option<
    BuildErrorView,
> {
    let r = substituted_template(t, f, m);
    if contains(r, "{aab_path}"@) {
        if artifact_path(p, "appbundle"@, f, m) is None {
            Some(BuildErrorView::AabPathUnresolved(p, f))
        } else {
            None
        }
    } else if contains(r, "{apk_path}"@) {
        if artifact_path(p, "apk"@, f, m) is None {
            Some(BuildErrorView::ApkPathUnresolved(p, f))
        } else {
            None
        }
    } else {
        None
    }
}

/// The expanded template when the artifact's directory is `dir`: the first
/// of `{aab_path}`, `{apk_path}` and `{output_dir}` that occurs decides what
/// is filled in; with `{output_dir}` alone, the directory of the platform's
/// default artifact is used, or nothing where it has no fixed path.
pub open spec fn expand_with_dir(
    t: Seq<char>,
    p: Platform,
    f: Seq<char>,
    m: BuildMode,
    dir: Seq<char>,
) -> Seq<char> {
    let r = substituted_template(t, f, m);
    if contains(r, "{aab_path}"@) {
        filled(r, "{aab_path}"@, artifact_path(p, "appbundle"@, f, m).unwrap(), dir)
    } else if contains(r, "{apk_path}"@) {
        filled(r, "{apk_path}"@, artifact_path(p, "apk"@, f, m).unwrap(), dir)
    } else if contains(r, "{output_dir}"@) {
        match artifact_path(p, default_build_type_spec(p), f, m) {
            Some(_) => replace_all(r, "{output_dir}"@, dir),
            None => replace_all(r, "{output_dir}"@, Seq::empty()),
        }
    } else {
        r
    }
}

/// The artifact directory that expanding a template fills in: that of the
/// artifact whose placeholder comes first (`{aab_path}`, then `{apk_path}`),
/// else that of the platform's default artifact.
pub open spec fn artifact_dir(t: Seq<char>, p: Platform, f: Seq<char>, m: BuildMode) -> Seq<char> {
    let r = substituted_template(t, f, m);
    let kind = if contains(r, "{aab_path}"@) {
        "appbundle"@
    } else if contains(r, "{apk_path}"@) {
        "apk"@
    } else {
        default_build_type_spec(p)
    };
    match artifact_path(p, kind, f, m) {
        Some(a) => parent_dir(a),
        None => Seq::empty(),
    }
}

/// What expanding a template gives: the error of [`expand_error`], or else
/// the template expanded with the artifact directory of [`artifact_dir`].
pub open spec fn expansion(
    t: Seq<char>,
    p: Platform,
    f: Seq<char>,
    m: BuildMode,
    out: Result<Seq<char>, BuildErrorView>,
) -> bool {
    match expand_error(t, p, f, m) {
        Some(e) => out == Err::<Seq<char>, BuildErrorView>(e),
        None => match out {
            Ok(s) => s == expand_with_dir(t, p, f, m, artifact_dir(t, p, f, m)),
            Err(_) => false,
        },
    }
}

pub open spec fn result_view(r: Result<String, BuildError>) -> Result<Seq<char>, BuildErrorView> {
    match r {
        Ok(s) => Ok(s@),
        Err(e) => Err(e@),
    }
}

/// Fills in an artifact placeholder with `path`, then `{output_dir}` with
/// `output_dir`.
pub fn fill_artifact_placeholders(
    result: &str,
    placeholder: &str,
    path: &str,
    output_dir: &str,
) -> (r: String)
    requires
        placeholder@.len() > 0,
    ensures
        r@ == filled(result@, placeholder@, path@, output_dir@),
{
    let rv = to_chars(result);
    let pv = to_chars(path);
    let dv = to_chars(output_dir);
    let a = replace_str(rv.as_slice(), placeholder, pv.as_slice());
    proof {
        reveal_strlit("{output_dir}");
    }
    let b = replace_str(a.as_slice(), "{output_dir}", dv.as_slice());
    from_chars(b.as_slice())
}

/// The directory of an artifact path (empty where it has none).
fn parent_or_empty(p: &str) -> (r: String)
    ensures
        r@ == parent_dir(p@),
{
    match path_parent(p) {
        Some(d) => d,
        None => String::new(),
    }
}

/// Expands a simulator command template: `{flavor}`, `{mode}`,
/// `{configuration}` (`Debug-<flavor>`), and the artifact placeholders
/// `{aab_path}`, `{apk_path}` and `{output_dir}`. Fails when the template
/// asks for an artifact that has no fixed path.
pub fn expand_simulator_template(
    template: &str,
    platform: Platform,
    flavor_name: &str,
    mode: &BuildMode,
) -> (r: Result<String, BuildError>)
    ensures
        expansion(template@, platform, flavor_name@, *mode, result_view(r)),
{
    proof {
        reveal_strlit("{flavor}");
        reveal_strlit("{mode}");
        reveal_strlit("{configuration}");
        reveal_strlit("{aab_path}");
        reveal_strlit("{apk_path}");
        reveal_strlit("{output_dir}");
    }
    let tv = to_chars(template);
    let fv = to_chars(flavor_name);
    let mv = to_chars(mode.as_str());
    let r1 = replace_str(tv.as_slice(), "{flavor}", fv.as_slice());
    let r2 = replace_str(r1.as_slice(), "{mode}", mv.as_slice());
    let mut conf: Vec<char> = Vec::new();
    append_str(&mut conf, "Debug-");
    append_chars(&mut conf, fv.as_slice());
    let r3 = replace_str(r2.as_slice(), "{configuration}", conf.as_slice());
    let ghost r = substituted_template(template@, flavor_name@, *mode);
    assert(r3@ == r);
    let rs = from_chars(r3.as_slice());
    if contains_str(r3.as_slice(), "{aab_path}") {
        match resolve_artifact_path(platform, "appbundle", flavor_name, mode) {
            None => Err(BuildError::AabPathUnresolved { platform, flavor: owned(flavor_name) }),
            Some(path) => {
                let dir = parent_or_empty(path.as_str());
                let out = fill_artifact_placeholders(rs.as_str(), "{aab_path}", path.as_str(), dir.as_str());
                assert(out@ == expand_with_dir(template@, platform, flavor_name@, *mode, dir@));
                Ok(out)
            },
        }
    } else if contains_str(r3.as_slice(), "{apk_path}") {
        match resolve_artifact_path(platform, "apk", flavor_name, mode) {
            None => Err(BuildError::ApkPathUnresolved { platform, flavor: owned(flavor_name) }),
            Some(path) => {
                let dir = parent_or_empty(path.as_str());
                let out = fill_artifact_placeholders(rs.as_str(), "{apk_path}", path.as_str(), dir.as_str());
                assert(out@ == expand_with_dir(template@, platform, flavor_name@, *mode, dir@));
                Ok(out)
            },
        }
    } else if contains_str(r3.as_slice(), "{output_dir}") {
        let empty: Vec<char> = Vec::new();
        match resolve_artifact_path(platform, platform.default_build_type(), flavor_name, mode) {
            Some(path) => {
                let dir = parent_or_empty(path.as_str());
                let dv = to_chars(dir.as_str());
                let out = replace_str(r3.as_slice(), "{output_dir}", dv.as_slice());
                assert(out@ == expand_with_dir(template@, platform, flavor_name@, *mode, dir@));
                Ok(from_chars(out.as_slice()))
            },
            None => {
                let out = replace_str(r3.as_slice(), "{output_dir}", empty.as_slice());
                assert(out@ == expand_with_dir(template@, platform, flavor_name@, *mode, Seq::empty()));
                Ok(from_chars(out.as_slice()))
            },
        }
    } else {
        assert(rs@ == expand_with_dir(template@, platform, flavor_name@, *mode, Seq::empty()));
        Ok(rs)
    }
}

// ---------------------------------------------------------------------------
// Platforms, flavors, simulator and version bump selection
// ---------------------------------------------------------------------------

/// Android alone with `--android`, iOS alone with `--ios`, both otherwise
/// (no flag, `--all`, or both platform flags).
pub open spec fn platforms_spec(android: bool, ios: bool, all: bool) -> Seq<Platform> {
    if android && !ios && !all {
        seq![Platform::Android]
    } else if ios && !android && !all {
        seq![Platform::Ios]
    } else {
        seq![Platform::Android, Platform::Ios]
    }
}

/// Which platforms to build for. Every combination of flags is accepted.
pub fn resolve_platforms(args: &BuildArgs) -> (r: Result<Vec<Platform>, BuildError>)
    ensures
        r matches Ok(v) && v@ == platforms_spec(args.android, args.ios, args.all),
{
    let mut v: Vec<Platform> = Vec::new();
    if args.android && !args.ios && !args.all {
        v.push(Platform::Android);
    } else if args.ios && !args.android && !args.all {
        v.push(Platform::Ios);
    } else {
        v.push(Platform::Android);
        v.push(Platform::Ios);
    }
    assert(v@ =~= platforms_spec(args.android, args.ios, args.all));
    Ok(v)
}

/// The first index of `req` whose flavor is not in `available`
/// (`req.len()` when all are).
pub open spec fn first_unknown(req: Seq<Seq<char>>, available: Seq<Seq<char>>, i: int) -> int
    decreases req.len() - i,
{
    if i < 0 || i >= req.len() {
        req.len() as int
    } else if !available.contains(req[i]) {
        i
    } else {
        first_unknown(req, available, i + 1)
    }
}

/// Which flavors to build: the requested ones, all of which must be
/// available; else the configured default, which must be available; else
/// the only available flavor.
pub open spec fn flavors_spec(
    req: Seq<Seq<char>>,
    default: Option<Seq<char>>,
    available: Seq<Seq<char>>,
) -> Result<Seq<Seq<char>>, BuildErrorView> {
    if req.len() > 0 {
        let k = first_unknown(req, available, 0);
        if k < req.len() {
            Err(BuildErrorView::UnknownFlavor(req[k], available))
        } else {
            Ok(req)
        }
    } else {
        match default {
            Some(d) => if available.contains(d) {
                Ok(seq![d])
            } else {
                Err(BuildErrorView::DefaultFlavorUndefined(d))
            },
            None => if available.len() == 1 {
                Ok(seq![available[0]])
            } else {
                Err(BuildErrorView::NoFlavorSelected(available))
            },
        }
    }
}

pub open spec fn str_views(v: Seq<&str>) -> Seq<Seq<char>> {
    v.map_values(|s: &str| s@)
}

pub open spec fn opt_str_view(o: Option<&str>) -> Option<Seq<char>> {
    match o {
        Some(s) => Some(s@),
        None => None,
    }
}

/// Copies a list of strings.
fn clone_strings(v: &[String]) -> (r: Vec<String>)
    ensures
        views(r@) == views(v@),
{
    let mut out: Vec<String> = Vec::new();
    let mut i: usize = 0;
    while i < v.len()
        invariant
            i <= v.len(),
            views(out@) == views(v@).take(i as int),
        decreases v.len() - i,
    {
        push_owned(&mut out, v[i].as_str());
        i += 1;
        assert(views(v@).take(i as int) =~= views(v@).take(i - 1).push(v@[i - 1]@));
    }
    assert(views(v@).take(v.len() as int) =~= views(v@));
    out
}

/// Whether a slice of strings holds `s`.
fn slice_contains(v: &[String], s: &str) -> (r: bool)
    ensures
        r == views(v@).contains(s@),
{
    let mut i: usize = 0;
    while i < v.len()
        invariant
            i <= v.len(),
            forall|k: int| 0 <= k < i ==> views(v@)[k] != s@,
        decreases v.len() - i,
    {
        if str_eq(v[i].as_str(), s) {
            assert(views(v@)[i as int] == s@);
            return true;
        }
        i += 1;
    }
    assert(!views(v@).contains(s@)) by {
        if views(v@).contains(s@) {
            let k = choose|k: int| 0 <= k < views(v@).len() && views(v@)[k] == s@;
            assert(views(v@)[k] != s@);
        }
    }
    false
}

/// Which flavors to build, from the `--flavor` arguments, the configured
/// default and the available flavors.
pub fn resolve_flavors<'a>(
    args: &'a BuildArgs,
    config_default: Option<&'a str>,
    available: &'a [String],
) -> (r: Result<Vec<&'a str>, BuildError>)
    ensures
        match r {
            Ok(v) => flavors_spec(views(args.flavor@), opt_str_view(config_default), views(available@))
                == Ok::<Seq<Seq<char>>, BuildErrorView>(str_views(v@)),
            Err(e) => flavors_spec(views(args.flavor@), opt_str_view(config_default), views(available@))
                == Err::<Seq<Seq<char>>, BuildErrorView>(e@),
        },
{
    let ghost req = views(args.flavor@);
    let ghost av = views(available@);
    if args.flavor.len() > 0 {
        let mut i: usize = 0;
        while i < args.flavor.len()
            invariant
                i <= args.flavor.len(),
                req == views(args.flavor@),
                av == views(available@),
                first_unknown(req, av, 0) == first_unknown(req, av, i as int),
            decreases args.flavor.len() - i,
        {
            if !slice_contains(available, args.flavor[i].as_str()) {
                let flavor = owned(args.flavor[i].as_str());
                let avail = clone_strings(available);
                return Err(BuildError::UnknownFlavor { flavor, available: avail });
            }
            i += 1;
        }
        let mut out: Vec<&'a str> = Vec::new();
        let mut j: usize = 0;
        while j < args.flavor.len()
            invariant
                j <= args.flavor.len(),
                req == views(args.flavor@),
                str_views(out@) == req.take(j as int),
            decreases args.flavor.len() - j,
        {
            let ghost before = str_views(out@);
            out.push(args.flavor[j].as_str());
            assert(str_views(out@) =~= before.push(args.flavor@[j as int]@));
            j += 1;
            assert(req.take(j as int) =~= req.take(j - 1).push(args.flavor@[j - 1]@));
        }
        assert(req.take(req.len() as int) =~= req);
        return Ok(out);
    }
    match config_default {
        Some(d) => {
            if !slice_contains(available, d) {
                return Err(BuildError::DefaultFlavorUndefined { flavor: owned(d) });
            }
            let mut out: Vec<&'a str> = Vec::new();
            out.push(d);
            assert(str_views(out@) =~= seq![d@]);
            Ok(out)
        },
        None => {
            if available.len() == 1 {
                let mut out: Vec<&'a str> = Vec::new();
                out.push(available[0].as_str());
                assert(str_views(out@) =~= seq![av[0]]);
                Ok(out)
            } else {
                Err(BuildError::NoFlavorSelected { available: clone_strings(available) })
            }
        },
    }
}

/// The simulator configuration of a platform, where there is one.
pub open spec fn simulator_of(cfg: BuildCommandConfig, p: Platform) -> Option<SimulatorConfig> {
    match p {
        Platform::Android => match cfg.android {
            Some(a) => a.simulator,
            None => None,
        },
        Platform::Ios => match cfg.ios {
            Some(i) => i.simulator,
            None => None,
        },
    }
}

/// The simulator post-build command: none unless `--simulator` was given;
/// then the platform's simulator configuration must exist, be enabled and
/// hold a command template, which is expanded.
pub fn resolve_simulator_command(
    simulator_requested: bool,
    platform: Platform,
    build_config: &BuildCommandConfig,
    flavor_name: &str,
    mode: &BuildMode,
) -> (r: Result<Option<String>, BuildError>)
    ensures
        !simulator_requested ==> r matches Ok(None),
        simulator_requested ==> match simulator_of(*build_config, platform) {
            None => r matches Err(e) && e@ == BuildErrorView::NoSimulatorConfig(platform),
            Some(sim) => if !sim.enabled {
                r matches Err(e) && e@ == BuildErrorView::SimulatorDisabled(platform)
            } else {
                match sim.command {
                    None => r matches Err(e) && e@ == BuildErrorView::NoSimulatorCommand(platform),
                    Some(t) => match r {
                        Ok(Some(s)) => expansion(t@, platform, flavor_name@, *mode, Ok(s@)),
                        Ok(None) => false,
                        Err(e) => expansion(t@, platform, flavor_name@, *mode, Err(e@)),
                    },
                }
            },
        },
{
    if !simulator_requested {
        return Ok(None);
    }
    let sim_config: Option<&SimulatorConfig> = match platform {
        Platform::Android => match &build_config.android {
            Some(a) => a.simulator.as_ref(),
            None => None,
        },
        Platform::Ios => match &build_config.ios {
            Some(i) => i.simulator.as_ref(),
            None => None,
        },
    };
    match sim_config {
        None => Err(BuildError::NoSimulatorConfig { platform }),
        Some(sim) => {
            if !sim.enabled {
                return Err(BuildError::SimulatorDisabled { platform });
            }
            match &sim.command {
                None => Err(BuildError::NoSimulatorCommand { platform }),
                Some(template) => {
                    match expand_simulator_template(template.as_str(), platform, flavor_name, mode) {
                        Ok(s) => Ok(Some(s)),
                        Err(e) => Err(e),
                    }
                },
            }
        },
    }
}

/// The accepted `--version-bump` values.
pub const VALID_VERSION_BUMPS: [&'static str; 3] = ["patch", "minor", "major"];

/// Accepts `patch`, `minor` and `major`.
pub fn validate_version_bump(bump: &str) -> (r: Result<(), BuildError>)
    ensures
        match r {
            Ok(_) => bump@ == "patch"@ || bump@ == "minor"@ || bump@ == "major"@,
            Err(e) => !(bump@ == "patch"@ || bump@ == "minor"@ || bump@ == "major"@)
                && e@ == BuildErrorView::InvalidVersionBump(bump@),
        },
{
    if str_eq(bump, "patch") || str_eq(bump, "minor") || str_eq(bump, "major") {
        Ok(())
    } else {
        Err(BuildError::InvalidVersionBump { value: owned(bump) })
    }
}

} // verus!
