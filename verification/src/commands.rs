//! Arguments of the commands and the command lines and settings they lead
//! to: `analyze`, `test`, `pub`, `bootstrap`, `exec` and the others.
use vstd::prelude::*;
use crate::config::{BootstrapCommandConfig, CommandConfig, PackageFilters, SharedDependency};
use crate::workspace::Workspace;
use crate::package::{Package, copy_strings, depends_on_names, opt_string_view, split_names};
use crate::text::{append_chars, append_str, from_chars, join, join_strings, starts_with, str_eq, to_chars, trim, trim_chars, trim_start, views, is_ws, skip_ws, lemma_skip_ws_bounds, skip_ws_exec, starts_with_chars};

use crate::text::owned;

verus! {

// ---------------------------------------------------------------------------
// Command line of the program
// ---------------------------------------------------------------------------

/// The commands of the program.
#[derive(Debug)]
pub enum Commands {
    Bootstrap,
    Clean,
    Exec(ExecArgs),
    List(ListArgs),
    Run { script: String },
    Version(VersionArgs),
}

// ---------------------------------------------------------------------------
// analyze
// ---------------------------------------------------------------------------

/// Arguments of the `analyze` command.
#[derive(Debug)]
pub struct AnalyzeArgs {
    pub concurrency: usize,
    pub fatal_warnings: bool,
    pub fatal_infos: bool,
    pub no_fatal: bool,
    pub fix: bool,
    pub filters: PackageFilters,
}

/// The command that applies fixes before analysis.
pub const FIX_COMMAND: &'static str = "dart fix --apply";

/// The words of the analyze command: `--no-fatal` turns both kinds off and
/// overrides the other flags.
pub open spec fn analyze_words(fatal_warnings: bool, fatal_infos: bool, no_fatal: bool) -> Seq<Seq<char>> {
    seq!["dart"@, "analyze"@] + (if !no_fatal {
        (if fatal_warnings {
            seq!["--fatal-warnings"@]
        } else {
            seq![]
        }) + (if fatal_infos {
            seq!["--fatal-infos"@]
        } else {
            seq![]
        })
    } else {
        seq!["--no-fatal-warnings"@, "--no-fatal-infos"@]
    }) + seq!["."@]
}

/// Appends a copy of `s` to a list of strings.
fn push_owned(out: &mut Vec<String>, s: &str)
    ensures
        views(final(out)@) == views(old(out)@).push(s@),
{
    let ghost before = views(out@);
    out.push(owned(s));
    assert(views(out@) =~= before.push(s@));
}

/// The `dart analyze` command line for the given flags.
pub fn build_analyze_command(fatal_warnings: bool, fatal_infos: bool, no_fatal: bool) -> (r: String)
    ensures
        r@ == join(analyze_words(fatal_warnings, fatal_infos, no_fatal), " "@),
{
    let mut parts: Vec<String> = Vec::new();
    push_owned(&mut parts, "dart");
    push_owned(&mut parts, "analyze");
    if !no_fatal {
        if fatal_warnings {
            push_owned(&mut parts, "--fatal-warnings");
        }
        if fatal_infos {
            push_owned(&mut parts, "--fatal-infos");
        }
    } else {
        push_owned(&mut parts, "--no-fatal-warnings");
        push_owned(&mut parts, "--no-fatal-infos");
    }
    push_owned(&mut parts, ".");
    assert(views(parts@) =~= analyze_words(fatal_warnings, fatal_infos, no_fatal));
    join_strings(&parts, " ")
}

// ---------------------------------------------------------------------------
// test
// ---------------------------------------------------------------------------

/// Arguments of the `test` command.
#[derive(Debug)]
pub struct TestArgs {
    pub concurrency: usize,
    pub fail_fast: bool,
    pub coverage: bool,
    pub test_randomize_ordering_seed: Option<String>,
    pub update_goldens: bool,
    pub no_run: bool,
    pub extra_args: Vec<String>,
    pub filters: PackageFilters,
}

/// The runner flags that the arguments ask for, in this order: coverage, the
/// randomization seed, no-run, update-goldens.
pub open spec fn extra_flags_spec(args: TestArgs) -> Seq<Seq<char>> {
    (if args.coverage {
        seq!["--coverage"@]
    } else {
        seq![]
    }) + (match args.test_randomize_ordering_seed {
        Some(seed) => seq!["--test-randomize-ordering-seed="@ + seed@],
        None => seq![],
    }) + (if args.no_run {
        seq!["--no-run"@]
    } else {
        seq![]
    }) + (if args.update_goldens {
        seq!["--update-goldens"@]
    } else {
        seq![]
    })
}

/// The runner flags of the `test` arguments.
pub fn build_extra_flags(args: &TestArgs) -> (r: Vec<String>)
    ensures
        views(r@) == extra_flags_spec(*args),
{
    let mut flags: Vec<String> = Vec::new();
    if args.coverage {
        push_owned(&mut flags, "--coverage");
    }
    match &args.test_randomize_ordering_seed {
        Some(seed) => {
            let mut m: Vec<char> = Vec::new();
            append_str(&mut m, "--test-randomize-ordering-seed=");
            append_str(&mut m, seed.as_str());
            let s = from_chars(m.as_slice());
            push_owned(&mut flags, s.as_str());
        },
        None => {},
    }
    if args.no_run {
        push_owned(&mut flags, "--no-run");
    }
    if args.update_goldens {
        push_owned(&mut flags, "--update-goldens");
    }
    assert(views(flags@) =~= extra_flags_spec(*args));
    flags
}

/// Appends copies of all strings of `v`.
fn push_all(out: &mut Vec<String>, v: &[String])
    ensures
        views(final(out)@) == views(old(out)@) + views(v@),
{
    let ghost start = views(out@);
    let mut i: usize = 0;
    while i < v.len()
        invariant
            i <= v.len(),
            views(out@) == start + views(v@).take(i as int),
        decreases v.len() - i,
    {
        push_owned(out, v[i].as_str());
        i += 1;
        assert(views(v@).take(i as int) =~= views(v@).take(i - 1).push(v@[i - 1]@));
        assert(start + views(v@).take(i as int) =~= (start + views(v@).take(i - 1)).push(
            v@[i - 1]@,
        ));
    }
    assert(views(v@).take(v.len() as int) =~= views(v@));
}

/// `<sdk> test` followed by the flags and the extra arguments.
pub fn build_test_command(sdk: &str, extra_flags: &[String], extra_args: &[String]) -> (r: String)
    ensures
        r@ == join(seq![sdk@, "test"@] + views(extra_flags@) + views(extra_args@), " "@),
{
    let mut parts: Vec<String> = Vec::new();
    push_owned(&mut parts, sdk);
    push_owned(&mut parts, "test");
    push_all(&mut parts, extra_flags);
    push_all(&mut parts, extra_args);
    assert(views(parts@) =~= seq![sdk@, "test"@] + views(extra_flags@) + views(extra_args@));
    join_strings(&parts, " ")
}

// ---------------------------------------------------------------------------
// pub
// ---------------------------------------------------------------------------

/// Arguments of the `pub` command.
#[derive(Debug)]
pub struct PubArgs {
    pub command: PubCommand,
}

/// The `pub` subcommands.
#[derive(Debug)]
pub enum PubCommand {
    Get(PubGetArgs),
    Outdated(PubOutdatedArgs),
    Upgrade(PubUpgradeArgs),
    Downgrade(PubDowngradeArgs),
}

/// Arguments of `pub get`.
#[derive(Debug)]
pub struct PubGetArgs {
    pub concurrency: usize,
    pub filters: PackageFilters,
}

/// Arguments of `pub outdated`.
#[derive(Debug)]
pub struct PubOutdatedArgs {
    pub concurrency: usize,
    pub filters: PackageFilters,
}

/// Arguments of `pub upgrade`.
#[derive(Debug)]
pub struct PubUpgradeArgs {
    pub concurrency: usize,
    pub major_versions: bool,
    pub filters: PackageFilters,
}

/// Arguments of `pub downgrade`.
#[derive(Debug)]
pub struct PubDowngradeArgs {
    pub concurrency: usize,
    pub filters: PackageFilters,
}

/// The tool that runs `pub` for a package: `flutter` or `dart`.
pub fn pub_cmd(pkg: &Package) -> (r: &'static str)
    ensures
        r@ == (if pkg.is_flutter {
            "flutter"@
        } else {
            "dart"@
        }),
{
    if pkg.is_flutter {
        "flutter"
    } else {
        "dart"
    }
}

// ---------------------------------------------------------------------------
// bootstrap
// ---------------------------------------------------------------------------

/// The bootstrap configuration, where the workspace has one.
pub open spec fn bootstrap_of(command: Option<CommandConfig>) -> Option<BootstrapCommandConfig> {
    match command {
        Some(c) => c.bootstrap,
        None => None,
    }
}

/// The bootstrap section of the workspace's command configuration.
pub fn bootstrap_config(workspace: &Workspace) -> (r: Option<&BootstrapCommandConfig>)
    ensures
        match bootstrap_of(workspace.config.command) {
            Some(b) => r == Some(&b),
            None => r is None,
        },
{
    match &workspace.config.command {
        Some(c) => c.bootstrap.as_ref(),
        None => None,
    }
}

/// How many packages `pub get` runs in at once: one where the configuration
/// turns parallel runs off, the command line's number otherwise.
pub fn effective_concurrency(workspace: &Workspace, cli_concurrency: usize) -> (r: usize)
    ensures
        r == (match bootstrap_of(workspace.config.command) {
            Some(b) => if b.run_pub_get_in_parallel == Some(false) {
                1
            } else {
                cli_concurrency
            },
            None => cli_concurrency,
        }),
{
    match bootstrap_config(workspace) {
        Some(b) => match b.run_pub_get_in_parallel {
            Some(false) => 1,
            _ => cli_concurrency,
        },
        None => cli_concurrency,
    }
}

/// A flag of the bootstrap configuration; off where it is not set.
pub open spec fn bootstrap_flag(command: Option<CommandConfig>, pick: spec_fn(BootstrapCommandConfig) -> Option<bool>) -> bool {
    match bootstrap_of(command) {
        Some(b) => pick(b) == Some(true),
        None => false,
    }
}

/// Whether the configuration asks for `--enforce-lockfile`.
pub fn config_enforce_lockfile(workspace: &Workspace) -> (r: bool)
    ensures
        r == bootstrap_flag(workspace.config.command, |b: BootstrapCommandConfig| b.enforce_lockfile),
{
    match bootstrap_config(workspace) {
        Some(b) => b.enforce_lockfile == Some(true),
        None => false,
    }
}

/// Whether the configuration asks for `pub get --offline`.
pub fn config_run_pub_get_offline(workspace: &Workspace) -> (r: bool)
    ensures
        r == bootstrap_flag(workspace.config.command, |b: BootstrapCommandConfig| b.run_pub_get_offline),
{
    match bootstrap_config(workspace) {
        Some(b) => b.run_pub_get_offline == Some(true),
        None => false,
    }
}

/// Whether the configuration asks for checking the version constraints
/// between workspace packages.
pub fn config_enforce_versions(workspace: &Workspace) -> (r: bool)
    ensures
        r == bootstrap_flag(
            workspace.config.command,
            |b: BootstrapCommandConfig| b.enforce_versions_for_dependency_resolution,
        ),
{
    match bootstrap_config(workspace) {
        Some(b) => b.enforce_versions_for_dependency_resolution == Some(true),
        None => false,
    }
}

/// The extra directories to look for override packages in (none where
/// unset).
pub fn config_dependency_override_paths(workspace: &Workspace) -> (r: Vec<String>)
    ensures
        views(r@) == (match bootstrap_of(workspace.config.command) {
            Some(b) => match b.dependency_override_paths {
                Some(p) => views(p@),
                None => seq![],
            },
            None => seq![],
        }),
{
    match bootstrap_config(workspace) {
        Some(b) => match &b.dependency_override_paths {
            Some(p) => copy_strings(p),
            None => Vec::new(),
        },
        None => {
            let v: Vec<String> = Vec::new();
            assert(views(v@) =~= Seq::<Seq<char>>::empty());
            v
        },
    }
}

/// `<sdk> pub get` with `--enforce-lockfile`, `--no-example` and `--offline`
/// as asked, in that order.
pub open spec fn pub_get_command_spec(sdk: Seq<char>, enforce_lockfile: bool, no_example: bool, offline: bool) -> Seq<char> {
    sdk + " pub get"@ + (if enforce_lockfile {
        " --enforce-lockfile"@
    } else {
        Seq::empty()
    }) + (if no_example {
        " --no-example"@
    } else {
        Seq::empty()
    }) + (if offline {
        " --offline"@
    } else {
        Seq::empty()
    })
}

/// The `pub get` command line.
pub fn build_pub_get_command(sdk: &str, enforce_lockfile: bool, no_example: bool, offline: bool) -> (r: String)
    ensures
        r@ == pub_get_command_spec(sdk@, enforce_lockfile, no_example, offline),
{
    let mut m: Vec<char> = Vec::new();
    append_str(&mut m, sdk);
    append_str(&mut m, " pub get");
    if enforce_lockfile {
        append_str(&mut m, " --enforce-lockfile");
    }
    if no_example {
        append_str(&mut m, " --no-example");
    }
    if offline {
        append_str(&mut m, " --offline");
    }
    assert(m@ =~= pub_get_command_spec(sdk@, enforce_lockfile, no_example, offline));
    from_chars(m.as_slice())
}

/// The constraint that a shared dependency syncs to: its text, `any` for an
/// unconstrained one, none for a structured source.
pub open spec fn shared_constraint_spec(d: SharedDependency) -> Option<Seq<char>> {
    match d {
        SharedDependency::Constraint(s) => Some(s@),
        SharedDependency::Unconstrained => Some("any"@),
        SharedDependency::Complex => None,
    }
}

/// The constraint text of a shared dependency.
pub fn shared_constraint(d: &SharedDependency) -> (r: Option<String>)
    ensures
        opt_string_view(r) == shared_constraint_spec(*d),
{
    match d {
        SharedDependency::Constraint(s) => Some(owned(s.as_str())),
        SharedDependency::Unconstrained => Some(owned("any")),
        SharedDependency::Complex => None,
    }
}

/// The number of bytes that UTF-8 takes for `c`.
pub open spec fn utf8_width(c: char) -> nat {
    if (c as u32) < 0x80 {
        1
    } else if (c as u32) < 0x800 {
        2
    } else if (c as u32) < 0x10000 {
        3
    } else {
        4
    }
}

/// The number of bytes that UTF-8 takes for `s`.
pub open spec fn utf8_len(s: Seq<char>) -> nat
    decreases s.len(),
{
    if s.len() == 0 {
        0
    } else {
        utf8_len(s.drop_last()) + utf8_width(s.last())
    }
}

/// The index of the first pair whose key, followed by `:`, begins `t`
/// (`values.len()` when none does).
pub open spec fn first_key_match(t: Seq<char>, values: Seq<(String, String)>, i: int) -> int
    decreases values.len() - i,
{
    if i < 0 || i >= values.len() {
        values.len() as int
    } else if starts_with(t, values[i].0@ + ":"@) {
        i
    } else {
        first_key_match(t, values, i + 1)
    }
}

/// The line for key `k` and value `v` with the indentation of `line`: as
/// many leading characters of `line` as its leading whitespace takes bytes.
pub open spec fn synced_line(line: Seq<char>, k: Seq<char>, v: Seq<char>) -> Seq<char> {
    let indent = (utf8_len(line) - utf8_len(trim_start(line))) as int;
    let n = if indent < line.len() {
        indent
    } else {
        line.len() as int
    };
    line.take(n) + k + ": "@ + v
}

/// Whether a line starts a top-level key (it is not blank and is not
/// indented by a space or a tab).
pub open spec fn is_top_level(line: Seq<char>) -> bool {
    trim(line).len() != 0 && !starts_with(line, " "@) && !starts_with(line, "\t"@)
}

/// The state after reading `lines` (whether the cursor is inside the
/// section), from state `inside`.
pub open spec fn section_state(lines: Seq<String>, header: Seq<char>, inside: bool) -> bool
    decreases lines.len(),
{
    if lines.len() == 0 {
        inside
    } else {
        let prev = section_state(lines.drop_last(), header, inside);
        let l = lines.last()@;
        if trim(l) == header {
            true
        } else if prev && is_top_level(l) {
            false
        } else {
            prev
        }
    }
}

/// What a line becomes: inside the section, the first key that begins it is
/// given its new value with the line's indentation; other lines stay.
pub open spec fn sync_line(
    line: Seq<char>,
    header: Seq<char>,
    values: Seq<(String, String)>,
    inside_before: bool,
) -> Seq<char> {
    let t = trim(line);
    if t == header {
        line
    } else if inside_before && is_top_level(line) {
        line
    } else if !inside_before {
        line
    } else {
        let k = first_key_match(t, values, 0);
        if k < values.len() {
            synced_line(line, values[k].0@, values[k].1@)
        } else {
            line
        }
    }
}

/// The lines of `old` after syncing the section `<section>:` to `values`.
pub open spec fn synced_lines(
    old: Seq<String>,
    section: Seq<char>,
    values: Seq<(String, String)>,
) -> Seq<Seq<char>> {
    if values.len() == 0 {
        views(old)
    } else {
        Seq::new(
            old.len(),
            |i: int| sync_line(old[i]@, section + ":"@, values, section_state(old.take(i), section + ":"@, false)),
        )
    }
}

/// The UTF-8 length of a character.
fn utf8_width_exec(c: char) -> (r: usize)
    ensures
        r == utf8_width(c),
{
    if (c as u32) < 0x80 {
        1
    } else if (c as u32) < 0x800 {
        2
    } else if (c as u32) < 0x10000 {
        3
    } else {
        4
    }
}

proof fn lemma_utf8_len_bound(s: Seq<char>)
    ensures
        utf8_len(s) <= 4 * s.len(),
    decreases s.len(),
{
    if s.len() > 0 {
        lemma_utf8_len_bound(s.drop_last());
    }
}

proof fn lemma_utf8_len_append(a: Seq<char>, b: Seq<char>)
    ensures
        utf8_len(a + b) == utf8_len(a) + utf8_len(b),
    decreases b.len(),
{
    if b.len() == 0 {
        assert(a + b =~= a);
    } else {
        lemma_utf8_len_append(a, b.drop_last());
        assert((a + b).drop_last() =~= a + b.drop_last());
        assert((a + b).last() == b.last());
    }
}

/// The new form of one line inside the section, given the values.
fn synced_line_exec(line: &[char], k: &str, v: &str) -> (r: Vec<char>)
    requires
        line@.len() < usize::MAX / 8,
    ensures
        r@ == synced_line(line@, k@, v@),
{
    let a = skip_ws_exec(line, 0);
    proof {
        lemma_skip_ws_bounds(line@, 0);
        assert(trim_start(line@) == line@.skip(a as int));
        assert(line@ =~= line@.take(a as int) + line@.skip(a as int));
        lemma_utf8_len_append(line@.take(a as int), line@.skip(a as int));
        lemma_utf8_len_bound(line@.take(a as int));
    }
    // The byte width of the leading whitespace.
    let mut indent: usize = 0;
    let mut i: usize = 0;
    while i < a
        invariant
            i <= a <= line@.len(),
            line@.len() < usize::MAX / 8,
            indent == utf8_len(line@.take(i as int)),
            indent <= 4 * i,
        decreases a - i,
    {
        let w = utf8_width_exec(line[i]);
        assert(line@.take(i + 1).drop_last() =~= line@.take(i as int));
        indent = indent + w;
        i += 1;
    }
    let n = if indent < line.len() {
        indent
    } else {
        line.len()
    };
    let mut out: Vec<char> = Vec::new();
    let mut j: usize = 0;
    while j < n
        invariant
            j <= n <= line@.len(),
            out@ == line@.take(j as int),
        decreases n - j,
    {
        out.push(line[j]);
        j += 1;
        assert(line@.take(j as int) =~= line@.take(j - 1).push(line@[j - 1]));
    }
    append_str(&mut out, k);
    append_str(&mut out, ": ");
    append_str(&mut out, v);
    out
}

/// Syncs the entries of the YAML section `<section>:` to `values` by text:
/// inside the section (up to the next top-level key), each line that begins
/// with `<key>:` for a key of `values` (the first such key) becomes
/// `<indent><key>: <value>`. Returns whether any line changed. Comments and
/// layout elsewhere stay as they were.
pub fn sync_yaml_section(lines: &mut [String], section: &str, values: &Vec<(String, String)>) -> (changed: bool)
    requires
        forall|i: int| 0 <= i < old(lines)@.len() ==> (#[trigger] old(lines)@[i])@.len() < usize::MAX / 8,
    ensures
        views(final(lines)@) == synced_lines(old(lines)@, section@, values@),
        changed == (views(final(lines)@) != views(old(lines)@)),
{
    let ghost start = lines@;
    if values.len() == 0 {
        assert(views(lines@) =~= synced_lines(start, section@, values@));
        return false;
    }
    let mut header: Vec<char> = Vec::new();
    append_str(&mut header, section);
    append_str(&mut header, ":");
    let ghost h = section@ + ":"@;
    assert(header@ == h);
    let mut in_section = false;
    let mut changed = false;
    let mut i: usize = 0;
    while i < lines.len()
        invariant
            values@.len() > 0,
            header@ == h,
            h == section@ + ":"@,
            i <= lines@.len(),
            lines@.len() == start.len(),
            forall|m: int| 0 <= m < start.len() ==> (#[trigger] start[m])@.len() < usize::MAX / 8,
            in_section == section_state(start.take(i as int), h, false),
            forall|m: int| i <= m < lines@.len() ==> lines@[m] == start[m],
            forall|m: int| 0 <= m < i ==> (#[trigger] lines@[m])@ == synced_lines(start, section@, values@)[m],
            changed == exists|m: int| 0 <= m < i && (#[trigger] lines@[m])@ != start[m]@,
        decreases lines@.len() - i,
    {
        let ghost inside_before = in_section;
        let ghost prev = lines@;
        let lv = to_chars(lines[i].as_str());
        let t = trim_chars(lv.as_slice());
        assert(start.take(i + 1).drop_last() =~= start.take(i as int));
        assert(start.take(i + 1).last() == start[i as int]);
        assert(lv@ == start[i as int]@);
        let ghost expected = sync_line(start[i as int]@, h, values@, inside_before);
        assert(synced_lines(start, section@, values@)[i as int] == expected);
        let mut replacement: Option<Vec<char>> = None;
        if crate::text::chars_eq(t.as_slice(), header.as_slice()) {
            in_section = true;
        } else {
            let top = t.len() != 0 && !crate::text::starts_with_str(lv.as_slice(), " ")
                && !crate::text::starts_with_str(lv.as_slice(), "\t");
            if in_section && top {
                in_section = false;
            } else if in_section {
                let mut k: usize = 0;
                let mut found = false;
                while !found && k < values.len()
                    invariant
                        k <= values@.len(),
                        found ==> k < values@.len() && first_key_match(t@, values@, 0) == k,
                        !found ==> first_key_match(t@, values@, 0) == first_key_match(
                            t@,
                            values@,
                            k as int,
                        ),
                    decreases values@.len() - k + (if found { 0int } else { 1int }),
                {
                    let mut kc: Vec<char> = to_chars(values[k].0.as_str());
                    kc.push(':');
                    assert(kc@ == values@[k as int].0@ + ":"@) by {
                        reveal_strlit(":");
                    }
                    if starts_with_chars(t.as_slice(), kc.as_slice()) {
                        found = true;
                    } else {
                        k += 1;
                    }
                }
                if found {
                    let nl = synced_line_exec(
                        lv.as_slice(),
                        values[k].0.as_str(),
                        values[k].1.as_str(),
                    );
                    if !crate::text::chars_eq(nl.as_slice(), lv.as_slice()) {
                        replacement = Some(nl);
                    }
                }
            }
        }
        match replacement {
            Some(nl) => {
                lines[i] = from_chars(nl.as_slice());
                changed = true;
                assert(lines@[i as int]@ == expected);
                assert(lines@[i as int]@ != start[i as int]@);
            },
            None => {
                assert(lines@ == prev);
                assert(start[i as int]@ == expected);
            },
        }
        assert(forall|m: int| 0 <= m < lines@.len() && m != i ==> lines@[m] == prev[m]);
        i += 1;
    }
    assert(views(lines@) =~= synced_lines(start, section@, values@));
    proof {
        if changed {
            let m = choose|m: int| 0 <= m < i && (#[trigger] lines@[m])@ != start[m]@;
            assert(views(lines@)[m] != views(start)[m]);
        } else {
            assert forall|m: int| 0 <= m < lines@.len() implies views(lines@)[m] == views(start)[m] by {
                assert(!((lines@[m])@ != start[m]@));
            }
            assert(views(lines@) =~= views(start));
        }
    }
    changed
}

// ---------------------------------------------------------------------------
// exec and the other commands' arguments
// ---------------------------------------------------------------------------

/// Arguments of the `exec` command.
#[derive(Debug)]
pub struct ExecArgs {
    pub command: Vec<String>,
    pub concurrency: usize,
    pub fail_fast: bool,
    pub depends_on: Option<String>,
    pub flutter: bool,
    pub no_flutter: bool,
    pub file_exists: Option<String>,
    pub dir_exists: Option<String>,
}

impl ExecArgs {
    /// The package filters that the flags ask for: `--flutter` wins over
    /// `--no-flutter`; `--depends-on` is a comma-separated list.
    pub fn to_package_filters(&self) -> (r: PackageFilters)
        ensures
            r.flutter == (if self.flutter {
                Some(true)
            } else if self.no_flutter {
                Some(false)
            } else {
                None
            }),
            opt_string_view(r.dir_exists) == opt_string_view(self.dir_exists),
            opt_string_view(r.file_exists) == opt_string_view(self.file_exists),
            match self.depends_on {
                Some(d) => r.depends_on matches Some(v) && views(v@) == depends_on_names(d@),
                None => r.depends_on is None,
            },
            r.ignore is None,
            r.scope is None,
            r.category is None,
    {
        let flutter = if self.flutter {
            Some(true)
        } else if self.no_flutter {
            Some(false)
        } else {
            None
        };
        crate::package::filters_from_exec_flags(
            &self.depends_on,
            flutter,
            &self.file_exists,
            &self.dir_exists,
        )
    }
}

/// Arguments of the `format` command.
#[derive(Debug)]
pub struct FormatArgs {
    pub concurrency: usize,
    pub set_exit_if_changed: bool,
    pub output: String,
    pub line_length: Option<u32>,
    pub filters: PackageFilters,
}

/// Arguments of the `health` command.
#[derive(Debug)]
pub struct HealthArgs {
    pub version_drift: bool,
    pub missing_fields: bool,
    pub sdk_consistency: bool,
    pub all: bool,
    pub filters: PackageFilters,
}

/// Arguments of the `init` command.
#[derive(Debug)]
pub struct InitArgs {
    pub name: Option<String>,
    pub directory: Option<String>,
    pub packages: Vec<String>,
    pub legacy: bool,
}

/// Arguments of the `list` command.
#[derive(Debug)]
pub struct ListArgs {
    pub long: bool,
    pub json: bool,
    pub flutter: bool,
    pub no_flutter: bool,
}

/// Arguments of the `publish` command.
#[derive(Debug)]
pub struct PublishArgs {
    pub dry_run: bool,
    pub git_tag_version: bool,
    pub concurrency: usize,
    pub yes: bool,
    pub filters: PackageFilters,
}

/// Arguments of the `run` command.
#[derive(Debug)]
pub struct RunArgs {
    pub script: Option<String>,
    pub no_select: bool,
    pub list: bool,
    pub json: bool,
    pub include_private: bool,
    pub group: Vec<String>,
    pub watch: bool,
    pub filters: PackageFilters,
}

/// Arguments of the `version` command.
#[derive(Debug)]
pub struct VersionArgs {
    pub bump: String,
    pub all: bool,
    pub overrides: Vec<(String, String)>,
    pub yes: bool,
    pub conventional_commits: bool,
    pub since_ref: String,
    pub no_changelog: bool,
    pub no_git_tag: bool,
    pub no_git_push: bool,
    pub coordinated: bool,
    pub prerelease: bool,
    pub graduate: bool,
    pub preid: String,
    pub dependent_preid: Option<String>,
    pub message: Option<String>,
    pub dependent_constraints: bool,
    pub dependent_versions: bool,
}

} // verus!
