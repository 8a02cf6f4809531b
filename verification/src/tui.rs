//! The terminal interface's data and rules: package and command rows, the
//! per-command options and how they are edited, cleaning of command output,
//! and the elapsed-time display.
use vstd::prelude::*;
use crate::package::{Package, is_private_spec};
use crate::text::{append_chars, digits, from_chars, str_eq, to_chars, u64_digits, zero_padded, zero_padded_exec};

verus! {

/// The phase of the interface.
#[derive(Debug, Clone, Copy, PartialEq, Eq, Structural)]
pub enum AppState {
    Idle,
    Running,
    Done,
}

/// The focused panel.
#[derive(Debug, Clone, Copy, PartialEq, Eq, Structural)]
pub enum ActivePanel {
    Packages,
    Commands,
}

// ---------------------------------------------------------------------------
// Rows
// ---------------------------------------------------------------------------

/// A row of the package table.
#[derive(Debug, Clone)]
pub struct PackageRow {
    pub name: String,
    pub version: String,
    pub sdk: &'static str,
    pub path: String,
    pub is_private: bool,
}

/// What `Path::strip_prefix` gives for path `p` and base `root`: the path
/// relative to `root`, or `None` where `root` is not a leading run of the
/// components of `p`.
pub uninterp spec fn path_relative_to(p: Seq<char>, root: Seq<char>) -> Option<Seq<char>>;

/// `Path::strip_prefix` on paths given as text. The contract names its
/// result (it follows the platform's path rules, and depends on the two
/// paths alone); the text of a relative path is taken back losslessly, as
/// both paths were text.
#[verifier::external_body]
pub(crate) fn path_strip_prefix(p: &str, root: &str) -> (r: Option<String>)
    ensures
        match r {
            Some(rel) => path_relative_to(p@, root@) == Some(rel@),
            None => path_relative_to(p@, root@) is None,
        },
{
    match std::path::Path::new(p).strip_prefix(root) {
        Ok(rel) => Some(rel.to_string_lossy().into_owned()),
        Err(_) => None,
    }
}

impl PackageRow {
    /// The display row of a package: its name, version (empty where it has
    /// none), SDK, its path relative to the workspace root (the full path
    /// where it lies outside the root) and whether it is private.
    pub fn from_package(pkg: &Package, root: &str) -> (r: Self)
        ensures
            r.name@ == pkg.name@,
            r.version@ == match pkg.version {
                Some(v) => v@,
                None => Seq::empty(),
            },
            r.sdk@ == (if pkg.is_flutter {
                "Flutter"@
            } else {
                "Dart"@
            }),
            r.is_private == is_private_spec(pkg@),
            r.path@ == match path_relative_to(pkg.path@, root@) {
                Some(rel) => rel,
                None => pkg.path@,
            },
    {
        let path = match path_strip_prefix(pkg.path.as_str(), root) {
            Some(rel) => rel,
            None => pkg.path.clone(),
        };
        let version = match &pkg.version {
            Some(v) => v.clone(),
            None => String::new(),
        };
        PackageRow {
            name: pkg.name.clone(),
            version,
            sdk: if pkg.is_flutter {
                "Flutter"
            } else {
                "Dart"
            },
            path,
            is_private: pkg.is_private(),
        }
    }
}

/// A row of the command list.
#[derive(Debug, Clone)]
pub struct CommandRow {
    /// The command's or script's name.
    pub name: String,
    /// The script's description.
    pub description: Option<String>,
    /// Whether it is a built-in command rather than a script.
    pub is_builtin: bool,
    /// Whether the interface can run it without further arguments.
    pub is_supported: bool,
}

/// The built-in commands, as listed in the command picker.
pub const BUILTIN_COMMANDS: [&'static str; 13] = [
    "analyze",
    "bootstrap",
    "build",
    "clean",
    "exec",
    "format",
    "health",
    "list",
    "pub",
    "publish",
    "run",
    "test",
    "version",
];

/// The commands that the interface can run without further arguments.
pub const SUPPORTED_COMMANDS: [&'static str; 8] = [
    "analyze",
    "bootstrap",
    "clean",
    "format",
    "health",
    "pub",
    "publish",
    "test",
];

// ---------------------------------------------------------------------------
// Command options
// ---------------------------------------------------------------------------

/// The options of a command, shown and edited in the options overlay.
#[derive(Debug, Clone, Copy, PartialEq, Eq, Structural)]
pub enum CommandOpts {
    Analyze { concurrency: usize, fatal_warnings: bool, fatal_infos: bool, no_fatal: bool },
    Bootstrap { concurrency: usize, enforce_lockfile: bool, offline: bool, no_example: bool },
    Clean { concurrency: usize },
    Format { concurrency: usize, set_exit_if_changed: bool, line_length: Option<u32> },
    Test {
        concurrency: usize,
        fail_fast: bool,
        coverage: bool,
        update_goldens: bool,
        no_run: bool,
    },
    Publish { concurrency: usize, dry_run: bool },
    Health { version_drift: bool, missing_fields: bool, sdk_consistency: bool },
    Pub { subcommand: usize, concurrency: usize, major_versions: bool },
}

/// One row of the options overlay: a label and a value.
#[derive(Debug, Clone, Copy)]
pub enum OptionRow {
    Bool(&'static str, bool),
    Number(&'static str, usize),
    OptNumber(&'static str, Option<u32>),
}

/// The kind of an option row.
#[derive(PartialEq, Eq, Structural)]
pub enum RowKind {
    Bool,
    Number,
    OptNumber,
}

pub open spec fn row_kind(r: OptionRow) -> RowKind {
    match r {
        OptionRow::Bool(..) => RowKind::Bool,
        OptionRow::Number(..) => RowKind::Number,
        OptionRow::OptNumber(..) => RowKind::OptNumber,
    }
}

/// The label of an option row.
pub open spec fn row_label(r: OptionRow) -> Seq<char> {
    match r {
        OptionRow::Bool(l, _) => l@,
        OptionRow::Number(l, _) => l@,
        OptionRow::OptNumber(l, _) => l@,
    }
}

/// The defaults of the commands that the interface can run.
pub open spec fn default_opts(name: Seq<char>) -> Option<CommandOpts> {
    if name == "analyze"@ {
        Some(
            CommandOpts::Analyze {
                concurrency: 1,
                fatal_warnings: false,
                fatal_infos: false,
                no_fatal: false,
            },
        )
    } else if name == "bootstrap"@ {
        Some(
            CommandOpts::Bootstrap {
                concurrency: 1,
                enforce_lockfile: false,
                offline: false,
                no_example: false,
            },
        )
    } else if name == "clean"@ {
        Some(CommandOpts::Clean { concurrency: 1 })
    } else if name == "format"@ {
        Some(CommandOpts::Format { concurrency: 1, set_exit_if_changed: false, line_length: None })
    } else if name == "test"@ {
        Some(
            CommandOpts::Test {
                concurrency: 1,
                fail_fast: false,
                coverage: false,
                update_goldens: false,
                no_run: false,
            },
        )
    } else if name == "publish"@ {
        Some(CommandOpts::Publish { concurrency: 1, dry_run: true })
    } else if name == "health"@ {
        Some(
            CommandOpts::Health { version_drift: true, missing_fields: true, sdk_consistency: true },
        )
    } else if name == "pub"@ {
        Some(CommandOpts::Pub { subcommand: 1, concurrency: 1, major_versions: false })
    } else {
        None
    }
}

/// The rows of the options overlay: the numbers first (concurrency, and
/// for `pub` the subcommand before it), then the switches, in the order of
/// the command's flags.
pub open spec fn rows_spec(o: CommandOpts) -> Seq<OptionRow> {
    match o {
        CommandOpts::Analyze { concurrency, fatal_warnings, fatal_infos, no_fatal } => seq![
            OptionRow::Number("concurrency", concurrency),
            OptionRow::Bool("fatal-warnings", fatal_warnings),
            OptionRow::Bool("fatal-infos", fatal_infos),
            OptionRow::Bool("no-fatal", no_fatal),
        ],
        CommandOpts::Bootstrap { concurrency, enforce_lockfile, offline, no_example } => seq![
            OptionRow::Number("concurrency", concurrency),
            OptionRow::Bool("enforce-lockfile", enforce_lockfile),
            OptionRow::Bool("offline", offline),
            OptionRow::Bool("no-example", no_example),
        ],
        CommandOpts::Clean { concurrency } => seq![OptionRow::Number("concurrency", concurrency)],
        CommandOpts::Format { concurrency, set_exit_if_changed, line_length } => seq![
            OptionRow::Number("concurrency", concurrency),
            OptionRow::Bool("set-exit-if-changed", set_exit_if_changed),
            OptionRow::OptNumber("line-length", line_length),
        ],
        CommandOpts::Test { concurrency, fail_fast, coverage, update_goldens, no_run } => seq![
            OptionRow::Number("concurrency", concurrency),
            OptionRow::Bool("fail-fast", fail_fast),
            OptionRow::Bool("coverage", coverage),
            OptionRow::Bool("update-goldens", update_goldens),
            OptionRow::Bool("no-run", no_run),
        ],
        CommandOpts::Publish { concurrency, dry_run } => seq![
            OptionRow::Number("concurrency", concurrency),
            OptionRow::Bool("dry-run", dry_run),
        ],
        CommandOpts::Health { version_drift, missing_fields, sdk_consistency } => seq![
            OptionRow::Bool("version-drift", version_drift),
            OptionRow::Bool("missing-fields", missing_fields),
            OptionRow::Bool("sdk-consistency", sdk_consistency),
        ],
        CommandOpts::Pub { subcommand, concurrency, major_versions } => seq![
            OptionRow::Number("sub-cmd (1=get 2=outdated 3=upgrade 4=downgrade)", subcommand),
            OptionRow::Number("concurrency", concurrency),
            OptionRow::Bool("major-versions (upgrade only)", major_versions),
        ],
    }
}

/// The switches, in row order.
pub open spec fn bools_of(o: CommandOpts) -> Seq<bool> {
    match o {
        CommandOpts::Analyze { fatal_warnings, fatal_infos, no_fatal, .. } => seq![
            fatal_warnings,
            fatal_infos,
            no_fatal,
        ],
        CommandOpts::Bootstrap { enforce_lockfile, offline, no_example, .. } => seq![
            enforce_lockfile,
            offline,
            no_example,
        ],
        CommandOpts::Clean { .. } => seq![],
        CommandOpts::Format { set_exit_if_changed, .. } => seq![set_exit_if_changed],
        CommandOpts::Test { fail_fast, coverage, update_goldens, no_run, .. } => seq![
            fail_fast,
            coverage,
            update_goldens,
            no_run,
        ],
        CommandOpts::Publish { dry_run, .. } => seq![dry_run],
        CommandOpts::Health { version_drift, missing_fields, sdk_consistency } => seq![
            version_drift,
            missing_fields,
            sdk_consistency,
        ],
        CommandOpts::Pub { major_versions, .. } => seq![major_versions],
    }
}

/// The numbers, in row order.
pub open spec fn nums_of(o: CommandOpts) -> Seq<usize> {
    match o {
        CommandOpts::Analyze { concurrency, .. } => seq![concurrency],
        CommandOpts::Bootstrap { concurrency, .. } => seq![concurrency],
        CommandOpts::Clean { concurrency } => seq![concurrency],
        CommandOpts::Format { concurrency, .. } => seq![concurrency],
        CommandOpts::Test { concurrency, .. } => seq![concurrency],
        CommandOpts::Publish { concurrency, .. } => seq![concurrency],
        CommandOpts::Health { .. } => seq![],
        CommandOpts::Pub { subcommand, concurrency, .. } => seq![subcommand, concurrency],
    }
}

/// The options with the switches replaced by `b` (in row order).
pub open spec fn with_bools(o: CommandOpts, b: Seq<bool>) -> CommandOpts {
    match o {
        CommandOpts::Analyze { concurrency, .. } => CommandOpts::Analyze {
            concurrency,
            fatal_warnings: b[0],
            fatal_infos: b[1],
            no_fatal: b[2],
        },
        CommandOpts::Bootstrap { concurrency, .. } => CommandOpts::Bootstrap {
            concurrency,
            enforce_lockfile: b[0],
            offline: b[1],
            no_example: b[2],
        },
        CommandOpts::Clean { concurrency } => CommandOpts::Clean { concurrency },
        CommandOpts::Format { concurrency, line_length, .. } => CommandOpts::Format {
            concurrency,
            set_exit_if_changed: b[0],
            line_length,
        },
        CommandOpts::Test { concurrency, .. } => CommandOpts::Test {
            concurrency,
            fail_fast: b[0],
            coverage: b[1],
            update_goldens: b[2],
            no_run: b[3],
        },
        CommandOpts::Publish { concurrency, .. } => CommandOpts::Publish { concurrency, dry_run: b[0] },
        CommandOpts::Health { .. } => CommandOpts::Health {
            version_drift: b[0],
            missing_fields: b[1],
            sdk_consistency: b[2],
        },
        CommandOpts::Pub { subcommand, concurrency, .. } => CommandOpts::Pub {
            subcommand,
            concurrency,
            major_versions: b[0],
        },
    }
}

/// The options with the numbers replaced by `n` (in row order).
pub open spec fn with_nums(o: CommandOpts, n: Seq<usize>) -> CommandOpts {
    match o {
        CommandOpts::Analyze { fatal_warnings, fatal_infos, no_fatal, .. } => CommandOpts::Analyze {
            concurrency: n[0],
            fatal_warnings,
            fatal_infos,
            no_fatal,
        },
        CommandOpts::Bootstrap { enforce_lockfile, offline, no_example, .. } => CommandOpts::Bootstrap {
            concurrency: n[0],
            enforce_lockfile,
            offline,
            no_example,
        },
        CommandOpts::Clean { .. } => CommandOpts::Clean { concurrency: n[0] },
        CommandOpts::Format { set_exit_if_changed, line_length, .. } => CommandOpts::Format {
            concurrency: n[0],
            set_exit_if_changed,
            line_length,
        },
        CommandOpts::Test { fail_fast, coverage, update_goldens, no_run, .. } => CommandOpts::Test {
            concurrency: n[0],
            fail_fast,
            coverage,
            update_goldens,
            no_run,
        },
        CommandOpts::Publish { dry_run, .. } => CommandOpts::Publish { concurrency: n[0], dry_run },
        CommandOpts::Health { version_drift, missing_fields, sdk_consistency } => CommandOpts::Health {
            version_drift,
            missing_fields,
            sdk_consistency,
        },
        CommandOpts::Pub { major_versions, .. } => CommandOpts::Pub {
            subcommand: n[0],
            concurrency: n[1],
            major_versions,
        },
    }
}

/// How many of the first `n` rows are of kind `k`.
pub open spec fn count_kind(rows: Seq<OptionRow>, k: RowKind, n: int) -> nat
    decreases n,
{
    if n <= 0 || rows.len() == 0 {
        0
    } else if n > rows.len() {
        count_kind(rows, k, rows.len() as int)
    } else {
        count_kind(rows, k, n - 1) + if row_kind(rows[n - 1]) == k {
            1nat
        } else {
            0nat
        }
    }
}

/// Whether row `i` exists and is of kind `k`.
pub open spec fn row_is(o: CommandOpts, i: int, k: RowKind) -> bool {
    0 <= i < rows_spec(o).len() && row_kind(rows_spec(o)[i]) == k
}

/// The options after toggling the switch shown at row `i` (unchanged where
/// that row is no switch).
pub open spec fn toggled(o: CommandOpts, i: int) -> CommandOpts {
    if row_is(o, i, RowKind::Bool) {
        let b = count_kind(rows_spec(o), RowKind::Bool, i) as int;
        with_bools(o, bools_of(o).update(b, !bools_of(o)[b]))
    } else {
        o
    }
}

/// The options after raising the number shown at row `i` by one (at most
/// `usize::MAX`; unchanged where that row is no number).
pub open spec fn incremented(o: CommandOpts, i: int) -> CommandOpts {
    if row_is(o, i, RowKind::Number) {
        let k = count_kind(rows_spec(o), RowKind::Number, i) as int;
        let v = nums_of(o)[k];
        with_nums(o, nums_of(o).update(k, if v < usize::MAX { (v + 1) as usize } else { v }))
    } else {
        o
    }
}

/// The options after lowering the number shown at row `i` by one, never
/// below one (unchanged where that row is no number).
pub open spec fn decremented(o: CommandOpts, i: int) -> CommandOpts {
    if row_is(o, i, RowKind::Number) {
        let k = count_kind(rows_spec(o), RowKind::Number, i) as int;
        let v = nums_of(o)[k];
        with_nums(o, nums_of(o).update(k, if v > 1 { (v - 1) as usize } else { v }))
    } else {
        o
    }
}

impl CommandOpts {
    /// The default options of a command; `None` for the commands that need
    /// further arguments.
    pub fn build_default(name: &str) -> (r: Option<Self>)
        ensures
            r == default_opts(name@),
    {
        if str_eq(name, "analyze") {
            Some(
                CommandOpts::Analyze {
                    concurrency: 1,
                    fatal_warnings: false,
                    fatal_infos: false,
                    no_fatal: false,
                },
            )
        } else if str_eq(name, "bootstrap") {
            Some(
                CommandOpts::Bootstrap {
                    concurrency: 1,
                    enforce_lockfile: false,
                    offline: false,
                    no_example: false,
                },
            )
        } else if str_eq(name, "clean") {
            Some(CommandOpts::Clean { concurrency: 1 })
        } else if str_eq(name, "format") {
            Some(CommandOpts::Format { concurrency: 1, set_exit_if_changed: false, line_length: None })
        } else if str_eq(name, "test") {
            Some(
                CommandOpts::Test {
                    concurrency: 1,
                    fail_fast: false,
                    coverage: false,
                    update_goldens: false,
                    no_run: false,
                },
            )
        } else if str_eq(name, "publish") {
            Some(CommandOpts::Publish { concurrency: 1, dry_run: true })
        } else if str_eq(name, "health") {
            Some(
                CommandOpts::Health {
                    version_drift: true,
                    missing_fields: true,
                    sdk_consistency: true,
                },
            )
        } else if str_eq(name, "pub") {
            Some(CommandOpts::Pub { subcommand: 1, concurrency: 1, major_versions: false })
        } else {
            None
        }
    }

    /// The rows of the options overlay.
    pub fn option_rows(&self) -> (r: Vec<OptionRow>)
        ensures
            r@ == rows_spec(*self),
    {
        let r = match *self {
            CommandOpts::Analyze { concurrency, fatal_warnings, fatal_infos, no_fatal } => vec![
                OptionRow::Number("concurrency", concurrency),
                OptionRow::Bool("fatal-warnings", fatal_warnings),
                OptionRow::Bool("fatal-infos", fatal_infos),
                OptionRow::Bool("no-fatal", no_fatal),
            ],
            CommandOpts::Bootstrap { concurrency, enforce_lockfile, offline, no_example } => vec![
                OptionRow::Number("concurrency", concurrency),
                OptionRow::Bool("enforce-lockfile", enforce_lockfile),
                OptionRow::Bool("offline", offline),
                OptionRow::Bool("no-example", no_example),
            ],
            CommandOpts::Clean { concurrency } => vec![OptionRow::Number("concurrency", concurrency)],
            CommandOpts::Format { concurrency, set_exit_if_changed, line_length } => vec![
                OptionRow::Number("concurrency", concurrency),
                OptionRow::Bool("set-exit-if-changed", set_exit_if_changed),
                OptionRow::OptNumber("line-length", line_length),
            ],
            CommandOpts::Test { concurrency, fail_fast, coverage, update_goldens, no_run } => vec![
                OptionRow::Number("concurrency", concurrency),
                OptionRow::Bool("fail-fast", fail_fast),
                OptionRow::Bool("coverage", coverage),
                OptionRow::Bool("update-goldens", update_goldens),
                OptionRow::Bool("no-run", no_run),
            ],
            CommandOpts::Publish { concurrency, dry_run } => vec![
                OptionRow::Number("concurrency", concurrency),
                OptionRow::Bool("dry-run", dry_run),
            ],
            CommandOpts::Health { version_drift, missing_fields, sdk_consistency } => vec![
                OptionRow::Bool("version-drift", version_drift),
                OptionRow::Bool("missing-fields", missing_fields),
                OptionRow::Bool("sdk-consistency", sdk_consistency),
            ],
            CommandOpts::Pub { subcommand, concurrency, major_versions } => vec![
                OptionRow::Number(
                    "sub-cmd (1=get 2=outdated 3=upgrade 4=downgrade)",
                    subcommand,
                ),
                OptionRow::Number("concurrency", concurrency),
                OptionRow::Bool("major-versions (upgrade only)", major_versions),
            ],
        };
        assert(r@ =~= rows_spec(*self));
        r
    }

    /// The number of option rows.
    pub fn option_count(&self) -> (r: usize)
        ensures
            r == rows_spec(*self).len(),
    {
        self.option_rows().len()
    }

    /// How many of the first `n` rows of `rows` are of kind `k`.
    fn count_rows(rows: &Vec<OptionRow>, k: RowKind, n: usize) -> (r: usize)
        ensures
            r == count_kind(rows@, k, n as int),
            r <= rows@.len(),
    {
        let m = if n < rows.len() {
            n
        } else {
            rows.len()
        };
        let mut c: usize = 0;
        let mut i: usize = 0;
        while i < m
            invariant
                i <= m <= rows@.len(),
                m == (if n < rows@.len() { n as int } else { rows@.len() as int }),
                c == count_kind(rows@, k, i as int),
                c <= i,
            decreases m - i,
        {
            let is_k = match (&rows[i], &k) {
                (OptionRow::Bool(..), RowKind::Bool) => true,
                (OptionRow::Number(..), RowKind::Number) => true,
                (OptionRow::OptNumber(..), RowKind::OptNumber) => true,
                _ => false,
            };
            assert(is_k == (row_kind(rows@[i as int]) == k));
            if is_k {
                c += 1;
            }
            i += 1;
        }
        assert(count_kind(rows@, k, n as int) == count_kind(rows@, k, m as int));
        c
    }

    /// Toggles the switch shown at row `visual_index`; nothing happens where
    /// that row is a number or does not exist.
    pub fn toggle_bool(&mut self, visual_index: usize)
        ensures
            *final(self) == toggled(*old(self), visual_index as int),
    {
        let o = *self;
        let rows = self.option_rows();
        let b = Self::count_rows(&rows, RowKind::Bool, visual_index);
        if visual_index < rows.len() {
            match rows[visual_index] {
                OptionRow::Bool(..) => {
                    reveal_with_fuel(count_kind, 6);
                    let new = match o {
                        CommandOpts::Analyze { concurrency, fatal_warnings, fatal_infos, no_fatal } => {
                            CommandOpts::Analyze {
                                concurrency,
                                fatal_warnings: if b == 0 { !fatal_warnings } else { fatal_warnings },
                                fatal_infos: if b == 1 { !fatal_infos } else { fatal_infos },
                                no_fatal: if b == 2 { !no_fatal } else { no_fatal },
                            }
                        },
                        CommandOpts::Bootstrap { concurrency, enforce_lockfile, offline, no_example } => {
                            CommandOpts::Bootstrap {
                                concurrency,
                                enforce_lockfile: if b == 0 { !enforce_lockfile } else { enforce_lockfile },
                                offline: if b == 1 { !offline } else { offline },
                                no_example: if b == 2 { !no_example } else { no_example },
                            }
                        },
                        CommandOpts::Clean { concurrency } => CommandOpts::Clean { concurrency },
                        CommandOpts::Format { concurrency, set_exit_if_changed, line_length } => {
                            CommandOpts::Format {
                                concurrency,
                                set_exit_if_changed: if b == 0 { !set_exit_if_changed } else { set_exit_if_changed },
                                line_length,
                            }
                        },
                        CommandOpts::Test { concurrency, fail_fast, coverage, update_goldens, no_run } => {
                            CommandOpts::Test {
                                concurrency,
                                fail_fast: if b == 0 { !fail_fast } else { fail_fast },
                                coverage: if b == 1 { !coverage } else { coverage },
                                update_goldens: if b == 2 { !update_goldens } else { update_goldens },
                                no_run: if b == 3 { !no_run } else { no_run },
                            }
                        },
                        CommandOpts::Publish { concurrency, dry_run } => CommandOpts::Publish {
                            concurrency,
                            dry_run: if b == 0 { !dry_run } else { dry_run },
                        },
                        CommandOpts::Health { version_drift, missing_fields, sdk_consistency } => {
                            CommandOpts::Health {
                                version_drift: if b == 0 { !version_drift } else { version_drift },
                                missing_fields: if b == 1 { !missing_fields } else { missing_fields },
                                sdk_consistency: if b == 2 { !sdk_consistency } else { sdk_consistency },
                            }
                        },
                        CommandOpts::Pub { subcommand, concurrency, major_versions } => CommandOpts::Pub {
                            subcommand,
                            concurrency,
                            major_versions: if b == 0 { !major_versions } else { major_versions },
                        },
                    };
                    assert(new == toggled(o, visual_index as int));
                    *self = new;
                },
                _ => {},
            }
        }
    }

    /// Raises the number shown at row `visual_index` by one (saturating);
    /// nothing happens where that row is no number.
    pub fn increment_at(&mut self, visual_index: usize)
        ensures
            *final(self) == incremented(*old(self), visual_index as int),
    {
        let o = *self;
        let rows = self.option_rows();
        let k = Self::count_rows(&rows, RowKind::Number, visual_index);
        if visual_index < rows.len() {
            match rows[visual_index] {
                OptionRow::Number(..) => {
                    reveal_with_fuel(count_kind, 6);
                    let new = match o {
                        CommandOpts::Analyze { concurrency, fatal_warnings, fatal_infos, no_fatal } => {
                            CommandOpts::Analyze {
                                concurrency: concurrency.saturating_add(1),
                                fatal_warnings,
                                fatal_infos,
                                no_fatal,
                            }
                        },
                        CommandOpts::Bootstrap { concurrency, enforce_lockfile, offline, no_example } => {
                            CommandOpts::Bootstrap {
                                concurrency: concurrency.saturating_add(1),
                                enforce_lockfile,
                                offline,
                                no_example,
                            }
                        },
                        CommandOpts::Clean { concurrency } => CommandOpts::Clean {
                            concurrency: concurrency.saturating_add(1),
                        },
                        CommandOpts::Format { concurrency, set_exit_if_changed, line_length } => {
                            CommandOpts::Format {
                                concurrency: concurrency.saturating_add(1),
                                set_exit_if_changed,
                                line_length,
                            }
                        },
                        CommandOpts::Test { concurrency, fail_fast, coverage, update_goldens, no_run } => {
                            CommandOpts::Test {
                                concurrency: concurrency.saturating_add(1),
                                fail_fast,
                                coverage,
                                update_goldens,
                                no_run,
                            }
                        },
                        CommandOpts::Publish { concurrency, dry_run } => CommandOpts::Publish {
                            concurrency: concurrency.saturating_add(1),
                            dry_run,
                        },
                        CommandOpts::Health { version_drift, missing_fields, sdk_consistency } => {
                            CommandOpts::Health { version_drift, missing_fields, sdk_consistency }
                        },
                        CommandOpts::Pub { subcommand, concurrency, major_versions } => CommandOpts::Pub {
                            subcommand: if k == 0 { subcommand.saturating_add(1) } else { subcommand },
                            concurrency: if k == 1 { concurrency.saturating_add(1) } else { concurrency },
                            major_versions,
                        },
                    };
                    assert(new == incremented(o, visual_index as int));
                    *self = new;
                },
                _ => {},
            }
        }
    }

    /// Lowers the number shown at row `visual_index` by one, never below
    /// one; nothing happens where that row is no number.
    pub fn decrement_at(&mut self, visual_index: usize)
        ensures
            *final(self) == decremented(*old(self), visual_index as int),
    {
        let o = *self;
        let rows = self.option_rows();
        let k = Self::count_rows(&rows, RowKind::Number, visual_index);
        if visual_index < rows.len() {
            match rows[visual_index] {
                OptionRow::Number(..) => {
                    reveal_with_fuel(count_kind, 6);
                    let new = match o {
                        CommandOpts::Analyze { concurrency, fatal_warnings, fatal_infos, no_fatal } => {
                            CommandOpts::Analyze {
                                concurrency: if concurrency > 1 { concurrency - 1 } else { concurrency },
                                fatal_warnings,
                                fatal_infos,
                                no_fatal,
                            }
                        },
                        CommandOpts::Bootstrap { concurrency, enforce_lockfile, offline, no_example } => {
                            CommandOpts::Bootstrap {
                                concurrency: if concurrency > 1 { concurrency - 1 } else { concurrency },
                                enforce_lockfile,
                                offline,
                                no_example,
                            }
                        },
                        CommandOpts::Clean { concurrency } => CommandOpts::Clean {
                            concurrency: if concurrency > 1 { concurrency - 1 } else { concurrency },
                        },
                        CommandOpts::Format { concurrency, set_exit_if_changed, line_length } => {
                            CommandOpts::Format {
                                concurrency: if concurrency > 1 { concurrency - 1 } else { concurrency },
                                set_exit_if_changed,
                                line_length,
                            }
                        },
                        CommandOpts::Test { concurrency, fail_fast, coverage, update_goldens, no_run } => {
                            CommandOpts::Test {
                                concurrency: if concurrency > 1 { concurrency - 1 } else { concurrency },
                                fail_fast,
                                coverage,
                                update_goldens,
                                no_run,
                            }
                        },
                        CommandOpts::Publish { concurrency, dry_run } => CommandOpts::Publish {
                            concurrency: if concurrency > 1 { concurrency - 1 } else { concurrency },
                            dry_run,
                        },
                        CommandOpts::Health { version_drift, missing_fields, sdk_consistency } => {
                            CommandOpts::Health { version_drift, missing_fields, sdk_consistency }
                        },
                        CommandOpts::Pub { subcommand, concurrency, major_versions } => CommandOpts::Pub {
                            subcommand: if k == 0 && subcommand > 1 { subcommand - 1 } else { subcommand },
                            concurrency: if k == 1 && concurrency > 1 { concurrency - 1 } else { concurrency },
                            major_versions,
                        },
                    };
                    assert(new == decremented(o, visual_index as int));
                    *self = new;
                },
                _ => {},
            }
        }
    }
}

/// Whether every number among the options is at least one.
pub open spec fn numbers_positive(o: CommandOpts) -> bool {
    forall|k: int| 0 <= k < nums_of(o).len() ==> nums_of(o)[k] >= 1
}

/// Whether two sets of options show rows of the same labels and kinds.
pub open spec fn same_layout(a: CommandOpts, b: CommandOpts) -> bool {
    &&& rows_spec(a).len() == rows_spec(b).len()
    &&& forall|j: int|
        0 <= j < rows_spec(a).len() ==> row_kind(rows_spec(a)[j]) == row_kind(rows_spec(b)[j])
            && row_label(rows_spec(a)[j]) == row_label(rows_spec(b)[j])
}

/// Toggling the same switch twice gives the options back.
pub proof fn lemma_toggle_twice(o: CommandOpts, i: int)
    ensures
        toggled(toggled(o, i), i) == o,
{
    reveal_with_fuel(count_kind, 6);
    if row_is(o, i, RowKind::Bool) {
        match o {
            CommandOpts::Analyze { .. } => {},
            CommandOpts::Bootstrap { .. } => {},
            CommandOpts::Clean { .. } => {},
            CommandOpts::Format { .. } => {},
            CommandOpts::Test { .. } => {},
            CommandOpts::Publish { .. } => {},
            CommandOpts::Health { .. } => {},
            CommandOpts::Pub { .. } => {},
        }
    }
}

/// Editing a row never changes which rows are shown: their number, labels
/// and kinds stay as they were.
pub proof fn lemma_edits_keep_layout(o: CommandOpts, i: int)
    ensures
        same_layout(o, toggled(o, i)),
        same_layout(o, incremented(o, i)),
        same_layout(o, decremented(o, i)),
{
    reveal_with_fuel(count_kind, 6);
    match o {
        CommandOpts::Analyze { .. } => {},
        CommandOpts::Bootstrap { .. } => {},
        CommandOpts::Clean { .. } => {},
        CommandOpts::Format { .. } => {},
        CommandOpts::Test { .. } => {},
        CommandOpts::Publish { .. } => {},
        CommandOpts::Health { .. } => {},
        CommandOpts::Pub { .. } => {},
    }
}

/// Every number starts at one or more, and no edit takes it below one.
pub proof fn lemma_numbers_stay_positive(o: CommandOpts, i: int, name: Seq<char>)
    ensures
        default_opts(name) matches Some(d) ==> numbers_positive(d),
        numbers_positive(o) ==> numbers_positive(toggled(o, i)),
        numbers_positive(o) ==> numbers_positive(incremented(o, i)),
        numbers_positive(o) ==> numbers_positive(decremented(o, i)),
{
    reveal_with_fuel(count_kind, 6);
    match o {
        CommandOpts::Analyze { .. } => {},
        CommandOpts::Bootstrap { .. } => {},
        CommandOpts::Clean { .. } => {},
        CommandOpts::Format { .. } => {},
        CommandOpts::Test { .. } => {},
        CommandOpts::Publish { .. } => {},
        CommandOpts::Health { .. } => {},
        CommandOpts::Pub { .. } => {},
    }
}

/// Lowering a number that was just raised gives the options back, where
/// every number was at least one and below `usize::MAX`.
pub proof fn lemma_decrement_undoes_increment(o: CommandOpts, i: int)
    requires
        numbers_positive(o),
        forall|k: int| 0 <= k < nums_of(o).len() ==> nums_of(o)[k] < usize::MAX,
    ensures
        decremented(incremented(o, i), i) == o,
{
    reveal_with_fuel(count_kind, 6);
    match o {
        CommandOpts::Analyze { .. } => {},
        CommandOpts::Bootstrap { .. } => {},
        CommandOpts::Clean { .. } => {},
        CommandOpts::Format { .. } => {},
        CommandOpts::Test { .. } => {},
        CommandOpts::Publish { .. } => {},
        CommandOpts::Health { .. } => {},
        CommandOpts::Pub { .. } => {},
    }
}

// ---------------------------------------------------------------------------
// ANSI escape sequences
// ---------------------------------------------------------------------------

/// The index just past a control sequence's final byte (`@` to `~`) at or
/// after `j`, or the end.
pub open spec fn csi_end(s: Seq<char>, j: int) -> int
    decreases s.len() - j,
{
    if j < 0 || j >= s.len() {
        s.len() as int
    } else if '@' <= s[j] && s[j] <= '~' {
        j + 1
    } else {
        csi_end(s, j + 1)
    }
}

/// The index just past an operating system command's terminator (BEL, or
/// ESC `\`) at or after `j`, or the end.
pub open spec fn osc_end(s: Seq<char>, j: int) -> int
    decreases s.len() - j,
{
    if j < 0 || j >= s.len() {
        s.len() as int
    } else if s[j] == '\x07' {
        j + 1
    } else if s[j] == '\x1b' && j + 1 < s.len() && s[j + 1] == '\\' {
        j + 2
    } else {
        osc_end(s, j + 1)
    }
}

pub proof fn lemma_csi_end_bounds(s: Seq<char>, j: int)
    requires
        0 <= j,
    ensures
        j < csi_end(s, j) || (j >= s.len() && csi_end(s, j) == s.len()),
        csi_end(s, j) <= s.len() || j > s.len(),
    decreases s.len() - j,
{
    if j < s.len() && !('@' <= s[j] && s[j] <= '~') {
        lemma_csi_end_bounds(s, j + 1);
    }
}

pub proof fn lemma_osc_end_bounds(s: Seq<char>, j: int)
    requires
        0 <= j,
    ensures
        j < osc_end(s, j) || (j >= s.len() && osc_end(s, j) == s.len()),
        osc_end(s, j) <= s.len() || j > s.len(),
    decreases s.len() - j,
{
    if j < s.len() && !(s[j] == '\x07') && !(s[j] == '\x1b' && j + 1 < s.len() && s[j + 1] == '\\') {
        lemma_osc_end_bounds(s, j + 1);
    }
}

/// The text from index `i` on with escape sequences removed: control
/// sequences (ESC `[` up to a final byte), operating system commands
/// (ESC `]` up to BEL or ESC `\`), and other escapes with the one
/// character after them.
pub open spec fn strip_from(s: Seq<char>, i: int) -> Seq<char>
    decreases s.len() - i,
{
    if i < 0 || i >= s.len() {
        seq![]
    } else if s[i] != '\x1b' {
        seq![s[i]] + strip_from(s, i + 1)
    } else if i + 1 < s.len() && s[i + 1] == '[' {
        proof {
            lemma_csi_end_bounds(s, i + 2);
        }
        strip_from(s, csi_end(s, i + 2))
    } else if i + 1 < s.len() && s[i + 1] == ']' {
        proof {
            lemma_osc_end_bounds(s, i + 2);
        }
        strip_from(s, osc_end(s, i + 2))
    } else if i + 2 < s.len() {
        strip_from(s, i + 2)
    } else {
        seq![]
    }
}

proof fn lemma_strip_from_no_escape(s: Seq<char>, i: int)
    ensures
        !strip_from(s, i).contains('\x1b'),
    decreases s.len() - i,
{
    if i < 0 || i >= s.len() {
    } else if s[i] != '\x1b' {
        lemma_strip_from_no_escape(s, i + 1);
        assert forall|k: int| 0 <= k < strip_from(s, i).len() implies strip_from(s, i)[k] != '\x1b' by {
            if k > 0 {
                assert(strip_from(s, i)[k] == strip_from(s, i + 1)[k - 1]);
            }
        }
    } else if i + 1 < s.len() && s[i + 1] == '[' {
        lemma_csi_end_bounds(s, i + 2);
        lemma_strip_from_no_escape(s, csi_end(s, i + 2));
    } else if i + 1 < s.len() && s[i + 1] == ']' {
        lemma_osc_end_bounds(s, i + 2);
        lemma_strip_from_no_escape(s, osc_end(s, i + 2));
    } else if i + 2 < s.len() {
        lemma_strip_from_no_escape(s, i + 2);
    }
}

proof fn lemma_strip_from_plain(s: Seq<char>, i: int)
    requires
        0 <= i <= s.len(),
        !s.contains('\x1b'),
    ensures
        strip_from(s, i) == s.subrange(i, s.len() as int),
    decreases s.len() - i,
{
    if i < s.len() {
        assert(s[i] != '\x1b');
        lemma_strip_from_plain(s, i + 1);
        assert(seq![s[i]] + s.subrange(i + 1, s.len() as int) =~= s.subrange(i, s.len() as int));
    } else {
        assert(s.subrange(i, s.len() as int) =~= Seq::<char>::empty());
    }
}

/// Cleaned output holds no escape character, text without one comes back
/// unchanged, and so cleaning twice is cleaning once.
pub proof fn lemma_strip_ansi_laws(s: Seq<char>)
    ensures
        !strip_from(s, 0).contains('\x1b'),
        !s.contains('\x1b') ==> strip_from(s, 0) == s,
        strip_from(strip_from(s, 0), 0) == strip_from(s, 0),
{
    lemma_strip_from_no_escape(s, 0);
    lemma_strip_from_plain(strip_from(s, 0), 0);
    assert(strip_from(s, 0).subrange(0, strip_from(s, 0).len() as int) =~= strip_from(s, 0));
    if !s.contains('\x1b') {
        lemma_strip_from_plain(s, 0);
        assert(s.subrange(0, s.len() as int) =~= s);
    }
}

/// Removes ANSI escape sequences from command output.
pub fn strip_ansi(s: &str) -> (r: String)
    ensures
        r@ == strip_from(s@, 0),
{
    let v = to_chars(s);
    let n = v.len();
    let mut out: Vec<char> = Vec::new();
    let mut i: usize = 0;
    assert(out@ + strip_from(v@, 0) =~= strip_from(v@, 0));
    while i < n
        invariant
            n == v@.len(),
            v@ == s@,
            i <= n,
            out@ + strip_from(v@, i as int) == strip_from(v@, 0),
        decreases n - i,
    {
        let c = v[i];
        if c != '\x1b' {
            let ghost before = out@;
            out.push(c);
            assert(before + (seq![c] + strip_from(v@, i + 1)) =~= before.push(c) + strip_from(
                v@,
                i + 1,
            ));
            i += 1;
        } else if i + 1 < n && v[i + 1] == '[' {
            let mut j = i + 2;
            proof {
                lemma_csi_end_bounds(v@, i + 2);
            }
            while j < n && !('@' <= v[j] && v[j] <= '~')
                invariant
                    n == v@.len(),
                    i + 2 <= j <= n,
                    csi_end(v@, i + 2) == csi_end(v@, j as int),
                decreases n - j,
            {
                j += 1;
            }
            let ni = if j < n {
                j + 1
            } else {
                n
            };
            assert(ni == csi_end(v@, i + 2));
            assert(strip_from(v@, i as int) == strip_from(v@, ni as int));
            i = ni;
        } else if i + 1 < n && v[i + 1] == ']' {
            let mut j = i + 2;
            proof {
                lemma_osc_end_bounds(v@, i + 2);
            }
            let mut end: usize = n;
            let mut done = false;
            while !done && j < n
                invariant
                    n == v@.len(),
                    i + 2 <= j <= n,
                    !done ==> osc_end(v@, i + 2) == osc_end(v@, j as int) && end == n,
                    done ==> osc_end(v@, i + 2) == end && end <= n,
                decreases n - j + (if done { 0int } else { 1int }),
            {
                if v[j] == '\x07' {
                    end = j + 1;
                    done = true;
                } else if v[j] == '\x1b' && j + 1 < n && v[j + 1] == '\\' {
                    end = j + 2;
                    done = true;
                } else {
                    j += 1;
                }
            }
            assert(end == osc_end(v@, i + 2));
            assert(strip_from(v@, i as int) == strip_from(v@, end as int));
            i = end;
        } else {
            let ni = if i + 1 < n {
                i + 2
            } else {
                n
            };
            assert(strip_from(v@, i as int) == strip_from(v@, ni as int));
            i = ni;
        }
    }
    assert(out@ + Seq::<char>::empty() =~= out@);
    from_chars(out.as_slice())
}

// ---------------------------------------------------------------------------
// Elapsed time
// ---------------------------------------------------------------------------

/// `M:SS` under an hour, `H:MM:SS` from an hour on.
pub open spec fn elapsed_text(secs: nat) -> Seq<char> {
    let mins = secs / 60;
    let hours = mins / 60;
    if hours > 0 {
        digits(hours) + ":"@ + zero_padded(mins % 60, 2) + ":"@ + zero_padded(secs % 60, 2)
    } else {
        digits(mins) + ":"@ + zero_padded(secs % 60, 2)
    }
}

/// The display of an elapsed time given in whole seconds.
pub fn format_elapsed(secs: u64) -> (r: String)
    ensures
        r@ == elapsed_text(secs as nat),
{
    let mins = secs / 60;
    let hours = mins / 60;
    let mut out: Vec<char> = Vec::new();
    if hours > 0 {
        let h = u64_digits(hours);
        append_chars(&mut out, h.as_slice());
        out.push(':');
        let m = zero_padded_exec(mins % 60, 2);
        append_chars(&mut out, m.as_slice());
        out.push(':');
        let s = zero_padded_exec(secs % 60, 2);
        append_chars(&mut out, s.as_slice());
    } else {
        let m = u64_digits(mins);
        append_chars(&mut out, m.as_slice());
        out.push(':');
        let s = zero_padded_exec(secs % 60, 2);
        append_chars(&mut out, s.as_slice());
    }
    proof {
        reveal_strlit(":");
    }
    assert(out@ =~= elapsed_text(secs as nat));
    from_chars(out.as_slice())
}

} // verus!
