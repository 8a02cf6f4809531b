//! The state machine of the terminal interface: navigation of the package
//! and command panels, the help, options and filter overlays, the running
//! and result phases, and the progress events of a running command.
use vstd::prelude::*;
use std::time::{Duration, Instant};
use crate::events::Event;
use crate::health::HealthReport;
use crate::tui::{
    ActivePanel, AppState, CommandOpts, CommandRow, PackageRow, BUILTIN_COMMANDS, SUPPORTED_COMMANDS,
    decremented, default_opts, incremented, rows_spec, strip_ansi, strip_from, toggled,
};
use crate::text::{contains, contains_chars, from_chars, str_eq, to_chars, views};
use crate::config::ScriptEntry;
use crate::workspace::Workspace;

verus! {

/// A key as the interface reads it; keys that it does not handle are
/// `Other`.
#[derive(Debug, Clone, Copy, PartialEq, Eq, Structural)]
pub enum Key {
    Char(char),
    Esc,
    Enter,
    Tab,
    BackTab,
    Up,
    Down,
    Left,
    Right,
    Home,
    End,
    PageUp,
    PageDown,
    Backspace,
    Other,
}

/// The most output lines kept; older lines are dropped first.
pub const MAX_SCROLLBACK: usize = 10000;

/// The built-in colour themes, in the order that `t` cycles through them.
pub const THEME_NAMES: [&'static str; 19] = [
    "dark",
    "light",
    "catppuccin-mocha",
    "catppuccin-latte",
    "dracula",
    "everforest-dark",
    "everforest-light",
    "gruvbox-dark",
    "gruvbox-light",
    "nord",
    "nord-light",
    "one-dark",
    "one-light",
    "rose-pine",
    "rose-pine-dawn",
    "solarized-dark",
    "solarized-light",
    "tokyo-night",
    "tokyo-night-light",
];

#[verifier::external_type_specification]
#[verifier::external_body]
pub struct ExInstant(Instant);

/// `Instant::now`: the current time of the monotonic clock. Nothing is
/// stated of it.
#[verifier::external_body]
fn instant_now() -> (r: Instant) {
    Instant::now()
}

/// `Instant::elapsed`: the time since `start`. Nothing is stated of it.
#[verifier::external_body]
fn instant_elapsed(start: &Instant) -> (r: Duration) {
    start.elapsed()
}

/// The state of the interface.
pub struct App {
    /// The phase: idle, running a command, or showing its results.
    pub state: AppState,
    /// Whether the user asked to quit.
    pub quit: bool,
    /// The focused panel.
    pub active_panel: ActivePanel,
    /// The position of the colour theme in [`THEME_NAMES`].
    pub theme_index: usize,
    /// The workspace's name.
    pub workspace_name: Option<String>,
    /// Where the configuration came from (`melos.yaml` or `pubspec.yaml`).
    pub config_source_label: Option<String>,
    /// The package rows.
    pub package_rows: Vec<PackageRow>,
    /// The selected package, among the visible ones.
    pub selected_package: usize,
    /// The command and script rows.
    pub command_rows: Vec<CommandRow>,
    /// The selected command.
    pub selected_command: usize,
    /// The rows that a page key moves by.
    pub page_size: usize,
    /// Warnings from loading the workspace.
    pub warnings: Vec<String>,
    /// Whether the help overlay shows.
    pub show_help: bool,
    /// The command that the user asked to run, for the main loop to take.
    pub pending_command: Option<String>,
    /// Whether the user asked to cancel the running command.
    pub pending_cancel: bool,
    /// The command that runs or ran last.
    pub running_command: Option<String>,
    /// Packages started and not yet finished.
    pub running_packages: Vec<String>,
    /// Finished packages: name, success and duration.
    pub finished_packages: Vec<(String, bool, Duration)>,
    /// Progress: done, total and a message.
    pub progress: Option<(usize, usize, String)>,
    /// Output lines: package, line and whether it came on stderr.
    pub output_log: Vec<(String, String, bool)>,
    /// Notes and warnings of the running command.
    pub exec_messages: Vec<String>,
    /// Why the command failed, where it did.
    pub command_error: Option<String>,
    /// The first output line shown.
    pub output_scroll: usize,
    /// Whether the output view follows new lines.
    pub auto_scroll: bool,
    /// When the running command started.
    pub command_start: Option<Instant>,
    /// The report of a finished health command.
    pub health_report: Option<HealthReport>,
    /// The tab of the health report shown (0 to 2).
    pub health_tab: usize,
    /// Whether the options overlay shows.
    pub show_options: bool,
    /// The options being edited in the overlay.
    pub command_opts: Option<CommandOpts>,
    /// The selected row of the overlay; one past the options is the run row.
    pub selected_option: usize,
    /// Whether the filter bar takes the keys.
    pub filter_active: bool,
    /// The filter text; a non-empty text is an applied filter.
    pub filter_text: String,
    /// The positions of the package rows that match the filter.
    pub filtered_indices: Vec<usize>,
}

/// What the keys read and change of the interface's state.
pub struct AppView {
    pub state: AppState,
    pub quit: bool,
    pub active_panel: ActivePanel,
    pub theme_index: usize,
    pub page_size: usize,
    pub show_help: bool,
    pub pending_command: Option<Seq<char>>,
    pub pending_cancel: bool,
    pub output_scroll: usize,
    pub auto_scroll: bool,
    pub health_tab: usize,
    pub show_options: bool,
    pub command_opts: Option<CommandOpts>,
    pub selected_option: usize,
    pub filter_active: bool,
    pub filter_text: Seq<char>,
    pub filtered_indices: Seq<usize>,
    pub selected_package: usize,
    pub selected_command: usize,
    /// The names of the package rows.
    pub package_names: Seq<Seq<char>>,
    /// The names of the command rows and whether each can run from here.
    pub commands: Seq<(Seq<char>, bool)>,
    /// How many output lines there are.
    pub log_len: nat,
    /// Whether a health report is there.
    pub has_report: bool,
}

pub open spec fn opt_str(o: Option<String>) -> Option<Seq<char>> {
    match o {
        Some(s) => Some(s@),
        None => None,
    }
}

pub open spec fn row_names(rows: Seq<PackageRow>) -> Seq<Seq<char>> {
    rows.map_values(|r: PackageRow| r.name@)
}

pub open spec fn command_keys(rows: Seq<CommandRow>) -> Seq<(Seq<char>, bool)> {
    rows.map_values(|r: CommandRow| (r.name@, r.is_supported))
}

impl View for App {
    type V = AppView;

    open spec fn view(&self) -> AppView {
        AppView {
            state: self.state,
            quit: self.quit,
            active_panel: self.active_panel,
            theme_index: self.theme_index,
            page_size: self.page_size,
            show_help: self.show_help,
            pending_command: opt_str(self.pending_command),
            pending_cancel: self.pending_cancel,
            output_scroll: self.output_scroll,
            auto_scroll: self.auto_scroll,
            health_tab: self.health_tab,
            show_options: self.show_options,
            command_opts: self.command_opts,
            selected_option: self.selected_option,
            filter_active: self.filter_active,
            filter_text: self.filter_text@,
            filtered_indices: self.filtered_indices@,
            selected_package: self.selected_package,
            selected_command: self.selected_command,
            package_names: row_names(self.package_rows@),
            commands: command_keys(self.command_rows@),
            log_len: self.output_log@.len(),
            has_report: self.health_report is Some,
        }
    }
}

/// Whether `b` holds the same workspace, execution and result data as `a`:
/// everything that keys do not change.
pub open spec fn same_data(a: App, b: App) -> bool {
    &&& b.workspace_name == a.workspace_name
    &&& b.config_source_label == a.config_source_label
    &&& b.package_rows == a.package_rows
    &&& b.command_rows == a.command_rows
    &&& b.warnings == a.warnings
    &&& b.running_command == a.running_command
    &&& b.running_packages == a.running_packages
    &&& b.finished_packages == a.finished_packages
    &&& b.progress == a.progress
    &&& b.output_log == a.output_log
    &&& b.exec_messages == a.exec_messages
    &&& b.command_error == a.command_error
    &&& b.command_start == a.command_start
    &&& b.health_report == a.health_report
}

// ---------------------------------------------------------------------------
// Scrolling and selection
// ---------------------------------------------------------------------------

/// `a - b`, or zero where `b` is larger.
pub open spec fn sat_sub(a: int, b: int) -> usize {
    if a >= b {
        (a - b) as usize
    } else {
        0
    }
}

/// The last output line's position (zero with no output).
pub open spec fn max_scroll(v: AppView) -> int {
    if v.log_len >= 1 {
        v.log_len - 1
    } else {
        0
    }
}

/// The output scrolled down by `n` lines, at most to the last line.
pub open spec fn scrolled_down(v: AppView, n: int) -> AppView {
    AppView {
        output_scroll: if v.output_scroll + n < max_scroll(v) {
            (v.output_scroll + n) as usize
        } else {
            max_scroll(v) as usize
        },
        ..v
    }
}

/// The output scrolled up by `n` lines, at most to the first line.
pub open spec fn scrolled_up(v: AppView, n: int) -> AppView {
    AppView { output_scroll: sat_sub(v.output_scroll as int, n), ..v }
}

/// Following turned back on where the view is at the last line.
pub open spec fn follow_at_end(v: AppView) -> AppView {
    if v.output_scroll >= max_scroll(v) {
        AppView { auto_scroll: true, ..v }
    } else {
        v
    }
}

pub open spec fn no_follow(v: AppView) -> AppView {
    AppView { auto_scroll: false, ..v }
}

/// Half a page, at least one line.
pub open spec fn half_page(v: AppView) -> int {
    if v.page_size / 2 >= 1 {
        (v.page_size / 2) as int
    } else {
        1
    }
}

/// Whether a filter is applied: its text is not empty.
pub open spec fn has_filter_spec(v: AppView) -> bool {
    v.filter_text.len() > 0
}

/// How many package rows show: the matches of an applied filter, or all.
pub open spec fn visible_count(v: AppView) -> int {
    if has_filter_spec(v) {
        v.filtered_indices.len() as int
    } else {
        v.package_names.len() as int
    }
}

/// The selection of the focused panel and that panel's length.
pub open spec fn active_selection(v: AppView) -> (int, int) {
    match v.active_panel {
        ActivePanel::Packages => (v.selected_package as int, visible_count(v)),
        ActivePanel::Commands => (v.selected_command as int, v.commands.len() as int),
    }
}

pub open spec fn with_selection(v: AppView, idx: int) -> AppView {
    match v.active_panel {
        ActivePanel::Packages => AppView { selected_package: idx as usize, ..v },
        ActivePanel::Commands => AppView { selected_command: idx as usize, ..v },
    }
}

/// The selection moved by `n` rows, down or up. A single step wraps round
/// the ends; a longer move stops at them. Nothing moves in an empty panel.
pub open spec fn moved(v: AppView, down: bool, n: int) -> AppView {
    let (cur, len) = active_selection(v);
    if len == 0 {
        v
    } else if down || n == 0 {
        with_selection(
            v,
            if cur + n >= len {
                if n == 1 {
                    0
                } else {
                    len - 1
                }
            } else {
                cur + n
            },
        )
    } else {
        with_selection(
            v,
            if n > cur {
                if n == 1 {
                    len - 1
                } else {
                    0
                }
            } else {
                cur - n
            },
        )
    }
}

/// The selection at the last row of the focused panel.
pub open spec fn at_end(v: AppView) -> AppView {
    let (_, len) = active_selection(v);
    if len > 0 {
        with_selection(v, len - 1)
    } else {
        v
    }
}

/// The next colour theme, after the last the first.
pub open spec fn next_theme(i: usize) -> usize {
    ((i + 1) % 19) as usize
}

// ---------------------------------------------------------------------------
// The filter
// ---------------------------------------------------------------------------

/// The lower-case form of a text, as `str::to_lowercase` gives it.
pub uninterp spec fn lowercase(s: Seq<char>) -> Seq<char>;

/// `str::to_lowercase`: the lower-case form of `s`, by the Unicode rules of
/// the standard library; named, not stated.
#[verifier::external_body]
fn to_lowercase(s: &str) -> (r: String)
    ensures
        r@ == lowercase(s@),
{
    s.to_lowercase()
}

/// The positions below `n` of the names that, in lower case, hold `q`.
pub open spec fn matching_below(names: Seq<Seq<char>>, q: Seq<char>, n: int) -> Seq<usize>
    decreases n,
{
    if n <= 0 {
        seq![]
    } else {
        matching_below(names, q, n - 1) + if contains(lowercase(names[n - 1]), q) {
            seq![(n - 1) as usize]
        } else {
            seq![]
        }
    }
}

/// The rows that a filter text selects: those whose name holds the text,
/// ignoring case; none for an empty text.
pub open spec fn filter_indices(names: Seq<Seq<char>>, text: Seq<char>) -> Seq<usize> {
    if text.len() == 0 {
        seq![]
    } else {
        matching_below(names, lowercase(text), names.len() as int)
    }
}

/// The filter with a new text, the matches recomputed and the selection at
/// the top.
pub open spec fn refiltered(v: AppView, text: Seq<char>) -> AppView {
    AppView {
        filter_text: text,
        filtered_indices: filter_indices(v.package_names, text),
        selected_package: 0,
        ..v
    }
}

/// The filter bar closed and its text cleared.
pub open spec fn filter_cancelled(v: AppView) -> AppView {
    AppView {
        filter_active: false,
        filter_text: seq![],
        filtered_indices: seq![],
        selected_package: 0,
        ..v
    }
}

/// A key while the filter bar is open.
pub open spec fn filter_step(v: AppView, code: Key) -> AppView {
    match code {
        Key::Enter => AppView { filter_active: false, ..refiltered(v, v.filter_text) },
        Key::Esc => filter_cancelled(v),
        Key::Backspace => refiltered(
            v,
            if v.filter_text.len() > 0 {
                v.filter_text.drop_last()
            } else {
                v.filter_text
            },
        ),
        Key::Char(c) => refiltered(v, v.filter_text.push(c)),
        _ => v,
    }
}

// ---------------------------------------------------------------------------
// The options overlay
// ---------------------------------------------------------------------------

/// How many option rows the overlay shows.
pub open spec fn option_count_of(v: AppView) -> int {
    match v.command_opts {
        Some(o) => rows_spec(o).len() as int,
        None => 0,
    }
}

/// The selected command made pending and the overlay closed.
pub open spec fn options_confirmed(v: AppView) -> AppView {
    AppView {
        pending_command: if v.selected_command < v.commands.len() {
            Some(v.commands[v.selected_command as int].0)
        } else {
            v.pending_command
        },
        show_options: false,
        ..v
    }
}

/// The overlay closed without running.
pub open spec fn options_dismissed(v: AppView) -> AppView {
    AppView { show_options: false, command_opts: None, selected_option: 0, ..v }
}

/// A key while the options overlay shows: `j`/`k` move round the option
/// rows and the run row, space toggles a switch (or runs, on the run row),
/// `+`/`-` change a number, Enter runs, Esc and `q` close.
pub open spec fn options_step(v: AppView, code: Key) -> AppView {
    let count = option_count_of(v);
    let sel = v.selected_option as int;
    if code == Key::Esc || code == Key::Char('q') {
        options_dismissed(v)
    } else if code == Key::Enter {
        options_confirmed(v)
    } else if code == Key::Char('j') || code == Key::Down {
        AppView { selected_option: ((sel + 1) % (count + 1)) as usize, ..v }
    } else if code == Key::Char('k') || code == Key::Up {
        AppView {
            selected_option: if sel == 0 {
                count as usize
            } else {
                (sel - 1) as usize
            },
            ..v
        }
    } else if code == Key::Char(' ') {
        if sel < count {
            match v.command_opts {
                Some(o) => AppView { command_opts: Some(toggled(o, sel)), ..v },
                None => v,
            }
        } else {
            options_confirmed(v)
        }
    } else if code == Key::Char('+') || code == Key::Right {
        match v.command_opts {
            Some(o) => if sel < count {
                AppView { command_opts: Some(incremented(o, sel)), ..v }
            } else {
                v
            },
            None => v,
        }
    } else if code == Key::Char('-') || code == Key::Left {
        match v.command_opts {
            Some(o) => if sel < count {
                AppView { command_opts: Some(decremented(o, sel)), ..v }
            } else {
                v
            },
            None => v,
        }
    } else {
        v
    }
}

// ---------------------------------------------------------------------------
// The phases
// ---------------------------------------------------------------------------

/// A key while a command runs: Esc asks to cancel, Ctrl+C quits, and the
/// scroll keys move through the output (scrolling up stops following it,
/// reaching the end follows it again).
pub open spec fn running_step(v: AppView, code: Key, ctrl: bool) -> AppView {
    let half = half_page(v);
    let page = v.page_size as int;
    if code == Key::Esc {
        AppView { pending_cancel: true, ..v }
    } else if code == Key::Char('c') && ctrl {
        AppView { quit: true, ..v }
    } else if (code == Key::Up || code == Key::Char('k')) && !ctrl {
        no_follow(scrolled_up(v, 1))
    } else if (code == Key::Down || code == Key::Char('j')) && !ctrl {
        follow_at_end(scrolled_down(v, 1))
    } else if (code == Key::Home || code == Key::Char('g')) && !ctrl {
        AppView { output_scroll: 0, auto_scroll: false, ..v }
    } else if (code == Key::End || code == Key::Char('G')) && !ctrl {
        AppView { output_scroll: max_scroll(v) as usize, auto_scroll: true, ..v }
    } else if code == Key::Char('d') && ctrl {
        follow_at_end(scrolled_down(v, half))
    } else if code == Key::Char('u') && ctrl {
        no_follow(scrolled_up(v, half))
    } else if code == Key::PageDown || (code == Key::Char('f') && !ctrl) {
        follow_at_end(scrolled_down(v, page))
    } else if code == Key::PageUp || (code == Key::Char('b') && !ctrl) {
        no_follow(scrolled_up(v, page))
    } else {
        v
    }
}

/// A key on the results: Esc, Enter or `q` go back to idle, Ctrl+C quits,
/// Tab and BackTab turn the health report's tabs, and the scroll keys move
/// through the output.
pub open spec fn done_step(v: AppView, code: Key, ctrl: bool) -> AppView {
    let half = half_page(v);
    let page = v.page_size as int;
    if (code == Key::Esc || code == Key::Enter || code == Key::Char('q')) && !ctrl {
        AppView { state: AppState::Idle, ..v }
    } else if code == Key::Char('c') && ctrl {
        AppView { quit: true, ..v }
    } else if code == Key::Tab && v.has_report {
        AppView { health_tab: ((v.health_tab + 1) % 3) as usize, ..v }
    } else if code == Key::BackTab && v.has_report {
        AppView {
            health_tab: if v.health_tab == 0 {
                2
            } else {
                (v.health_tab - 1) as usize
            },
            ..v
        }
    } else if (code == Key::Up || code == Key::Char('k')) && !ctrl {
        scrolled_up(v, 1)
    } else if (code == Key::Down || code == Key::Char('j')) && !ctrl {
        scrolled_down(v, 1)
    } else if (code == Key::Home || code == Key::Char('g')) && !ctrl {
        AppView { output_scroll: 0, ..v }
    } else if (code == Key::End || code == Key::Char('G')) && !ctrl {
        AppView { output_scroll: max_scroll(v) as usize, ..v }
    } else if code == Key::Char('d') && ctrl {
        scrolled_down(v, half)
    } else if code == Key::Char('u') && ctrl {
        scrolled_up(v, half)
    } else if code == Key::PageDown || code == Key::Char('f') {
        scrolled_down(v, page)
    } else if code == Key::PageUp || code == Key::Char('b') {
        scrolled_up(v, page)
    } else {
        v
    }
}

/// Enter on the command panel: a command that runs from here opens the
/// options overlay with its defaults; any other is made pending at once.
pub open spec fn execute_requested(v: AppView) -> AppView {
    if v.state != AppState::Idle || v.active_panel != ActivePanel::Commands {
        v
    } else if v.selected_command < v.commands.len() {
        let (name, supported) = v.commands[v.selected_command as int];
        if supported && default_opts(name) is Some {
            AppView { command_opts: default_opts(name), selected_option: 0, show_options: true, ..v }
        } else {
            AppView { pending_command: Some(name), ..v }
        }
    } else {
        v
    }
}

/// A key in the idle phase: quitting, running the selected command, panel
/// focus, moving the selection, help, the filter bar and the theme.
pub open spec fn idle_step(v: AppView, code: Key, ctrl: bool) -> AppView {
    let half = half_page(v);
    let page = v.page_size as int;
    if code == Key::Char('q') && !ctrl {
        AppView { quit: true, ..v }
    } else if code == Key::Char('c') && ctrl {
        AppView { quit: true, ..v }
    } else if code == Key::Esc {
        if has_filter_spec(v) {
            filter_cancelled(v)
        } else {
            AppView { quit: true, ..v }
        }
    } else if code == Key::Enter {
        execute_requested(v)
    } else if code == Key::Tab || code == Key::BackTab {
        AppView {
            active_panel: match v.active_panel {
                ActivePanel::Packages => ActivePanel::Commands,
                ActivePanel::Commands => ActivePanel::Packages,
            },
            ..v
        }
    } else if (code == Key::Char('h') && !ctrl) || code == Key::Left {
        AppView { active_panel: ActivePanel::Packages, ..v }
    } else if (code == Key::Char('l') && !ctrl) || code == Key::Right {
        AppView { active_panel: ActivePanel::Commands, ..v }
    } else if (code == Key::Up || code == Key::Char('k')) && !ctrl {
        moved(v, false, 1)
    } else if (code == Key::Down || code == Key::Char('j')) && !ctrl {
        moved(v, true, 1)
    } else if (code == Key::Home || code == Key::Char('g')) && !ctrl {
        with_selection(v, 0)
    } else if (code == Key::End || code == Key::Char('G')) && !ctrl {
        at_end(v)
    } else if code == Key::Char('d') && ctrl {
        moved(v, true, half)
    } else if code == Key::Char('u') && ctrl {
        moved(v, false, half)
    } else if code == Key::PageDown || code == Key::Char('f') {
        moved(v, true, page)
    } else if code == Key::PageUp || code == Key::Char('b') {
        moved(v, false, page)
    } else if code == Key::Char('?') {
        AppView { show_help: true, ..v }
    } else if code == Key::Char('/') && !ctrl {
        AppView { filter_active: true, ..v }
    } else if code == Key::Char('t') && !ctrl {
        AppView { theme_index: next_theme(v.theme_index), ..v }
    } else {
        v
    }
}

/// What a key does: the help overlay takes only `?` and Esc (which close
/// it), then the options overlay, the filter bar, and the phase decide.
pub open spec fn key_step(v: AppView, code: Key, ctrl: bool) -> AppView {
    if v.show_help {
        if code == Key::Char('?') || code == Key::Esc {
            AppView { show_help: false, ..v }
        } else {
            v
        }
    } else if v.show_options {
        options_step(v, code)
    } else if v.filter_active {
        filter_step(v, code)
    } else if v.state == AppState::Running {
        running_step(v, code, ctrl)
    } else if v.state == AppState::Done {
        done_step(v, code, ctrl)
    } else {
        idle_step(v, code, ctrl)
    }
}

proof fn lemma_mod_step(a: int, t: int)
    requires
        t > 0,
        a >= 0,
    ensures
        (a + 1) % t == (if a % t + 1 == t {
            0
        } else {
            a % t + 1
        }),
{
    vstd::arithmetic::div_mod::lemma_add_mod_noop(a, 1, t);
    vstd::arithmetic::div_mod::lemma_mod_bound(a, t);
    if t == 1 {
        vstd::arithmetic::div_mod::lemma_mod_self_0(t);
        assert(1int % t == 0);
        assert((a % t) == 0);
    } else {
        vstd::arithmetic::div_mod::lemma_small_mod(1, t as nat);
        if a % t + 1 == t {
            vstd::arithmetic::div_mod::lemma_mod_self_0(t);
        } else {
            vstd::arithmetic::div_mod::lemma_small_mod((a % t + 1) as nat, t as nat);
        }
    }
}

/// The positions of `rows` whose name, in lower case, holds `q`, below `n`.
fn matching_rows(rows: &Vec<PackageRow>, text: &str) -> (r: Vec<usize>)
    ensures
        r@ == filter_indices(row_names(rows@), text@),
{
    if text.is_empty() {
        return Vec::new();
    }
    let q = to_lowercase(text);
    let qv = to_chars(q.as_str());
    let mut out: Vec<usize> = Vec::new();
    let mut i: usize = 0;
    while i < rows.len()
        invariant
            i <= rows.len(),
            qv@ == lowercase(text@),
            out@ == matching_below(row_names(rows@), lowercase(text@), i as int),
        decreases rows.len() - i,
    {
        let l = to_lowercase(rows[i].name.as_str());
        let lv = to_chars(l.as_str());
        assert(row_names(rows@)[i as int] == rows@[i as int].name@);
        if contains_chars(lv.as_slice(), qv.as_slice()) {
            out.push(i);
        }
        i += 1;
    }
    out
}

impl App {
    /// Whether a filter is applied (its text is not empty).
    pub fn has_filter(&self) -> (r: bool)
        ensures
            r == has_filter_spec(self@),
    {
        !self.filter_text.as_str().is_empty()
    }

    /// How many package rows show.
    pub fn visible_package_count(&self) -> (r: usize)
        ensures
            r == visible_count(self@),
    {
        if self.has_filter() {
            self.filtered_indices.len()
        } else {
            self.package_rows.len()
        }
    }

    /// The number of package rows.
    pub fn package_count(&self) -> (r: usize)
        ensures
            r == self.package_rows@.len(),
    {
        self.package_rows.len()
    }

    /// The number of command rows.
    pub fn command_count(&self) -> (r: usize)
        ensures
            r == self.command_rows@.len(),
    {
        self.command_rows.len()
    }

    /// Whether the user asked to quit.
    pub fn should_quit(&self) -> (r: bool)
        ensures
            r == self.quit,
    {
        self.quit
    }

    fn max_scroll_exec(&self) -> (r: usize)
        ensures
            r == max_scroll(self@),
    {
        if self.output_log.len() >= 1 {
            self.output_log.len() - 1
        } else {
            0
        }
    }

    fn half_page_exec(&self) -> (r: usize)
        ensures
            r == half_page(self@),
    {
        let h = self.page_size / 2;
        if h >= 1 {
            h
        } else {
            1
        }
    }

    /// Scrolls the output down by `n` lines, at most to the last line.
    fn scroll_output_down(&mut self, n: usize)
        ensures
            final(self)@ == scrolled_down(old(self)@, n as int),
            same_data(*old(self), *final(self)),
    {
        let max = self.max_scroll_exec();
        let s = self.output_scroll;
        self.output_scroll = if s < max && n < max - s {
            s + n
        } else {
            max
        };
    }

    /// Scrolls the output up by `n` lines, at most to the first line.
    fn scroll_output_up(&mut self, n: usize)
        ensures
            final(self)@ == scrolled_up(old(self)@, n as int),
            same_data(*old(self), *final(self)),
    {
        self.output_scroll = if self.output_scroll >= n {
            self.output_scroll - n
        } else {
            0
        };
    }

    /// Scrolls the output to its last line.
    fn scroll_output_end(&mut self)
        ensures
            final(self)@ == (AppView { output_scroll: max_scroll(old(self)@) as usize, ..old(self)@ }),
            same_data(*old(self), *final(self)),
    {
        self.output_scroll = self.max_scroll_exec();
    }

    /// Follows the output again where the view is at its last line.
    fn update_auto_scroll(&mut self)
        ensures
            final(self)@ == follow_at_end(old(self)@),
            same_data(*old(self), *final(self)),
    {
        let max = self.max_scroll_exec();
        if self.output_scroll >= max {
            self.auto_scroll = true;
        }
    }

    fn active_selection_exec(&self) -> (r: (usize, usize))
        ensures
            r.0 == active_selection(self@).0,
            r.1 == active_selection(self@).1,
    {
        match self.active_panel {
            ActivePanel::Packages => (self.selected_package, self.visible_package_count()),
            ActivePanel::Commands => (self.selected_command, self.command_rows.len()),
        }
    }

    fn set_active_selection(&mut self, idx: usize)
        ensures
            final(self)@ == with_selection(old(self)@, idx as int),
            same_data(*old(self), *final(self)),
    {
        match self.active_panel {
            ActivePanel::Packages => self.selected_package = idx,
            ActivePanel::Commands => self.selected_command = idx,
        }
    }

    /// Moves the selection of the focused panel by `n` rows.
    fn move_selection(&mut self, down: bool, n: usize)
        ensures
            final(self)@ == moved(old(self)@, down, n as int),
            same_data(*old(self), *final(self)),
    {
        let (cur, len) = self.active_selection_exec();
        if len == 0 {
            return;
        }
        let idx = if down || n == 0 {
            if cur >= len || n >= len - cur {
                if n == 1 {
                    0
                } else {
                    len - 1
                }
            } else {
                cur + n
            }
        } else {
            if n > cur {
                if n == 1 {
                    len - 1
                } else {
                    0
                }
            } else {
                cur - n
            }
        };
        self.set_active_selection(idx);
    }

    /// Selects the last row of the focused panel.
    fn jump_selection_end(&mut self)
        ensures
            final(self)@ == at_end(old(self)@),
            same_data(*old(self), *final(self)),
    {
        let (_, len) = self.active_selection_exec();
        if len > 0 {
            self.set_active_selection(len - 1);
        }
    }

    /// Moves to the next colour theme, after the last to the first.
    pub fn cycle_theme(&mut self)
        ensures
            final(self)@ == (AppView { theme_index: next_theme(old(self).theme_index), ..old(self)@ }),
            same_data(*old(self), *final(self)),
    {
        self.theme_index = (self.theme_index % 19 + 1) % 19;
    }

    /// The name of the colour theme (`dark` where the position is past the
    /// list).
    pub fn theme_name(&self) -> (r: &'static str)
        ensures
            r@ == (if self.theme_index < 19 {
                THEME_NAMES[self.theme_index as int]@
            } else {
                "dark"@
            }),
    {
        if self.theme_index < 19 {
            THEME_NAMES[self.theme_index]
        } else {
            "dark"
        }
    }

    /// Sets the page size from the terminal's height (five rows are taken
    /// by the frame).
    pub fn update_page_size(&mut self, term_height: u16)
        ensures
            final(self)@ == (AppView { page_size: sat_sub(term_height as int, 5), ..old(self)@ }),
            same_data(*old(self), *final(self)),
    {
        self.page_size = if term_height >= 5 {
            (term_height - 5) as usize
        } else {
            0
        };
    }

    /// Recomputes the matches of the filter text, selecting the first row.
    fn recompute_filter(&mut self)
        ensures
            final(self)@ == refiltered(old(self)@, old(self)@.filter_text),
            same_data(*old(self), *final(self)),
    {
        let m = matching_rows(&self.package_rows, self.filter_text.as_str());
        self.filtered_indices = m;
        self.selected_package = 0;
    }

    /// Closes the filter bar and clears the filter.
    fn cancel_filter(&mut self)
        ensures
            final(self)@ == filter_cancelled(old(self)@),
            same_data(*old(self), *final(self)),
    {
        self.filter_active = false;
        self.filter_text = String::new();
        self.filtered_indices = Vec::new();
        self.selected_package = 0;
    }

    /// A key while the filter bar is open: Enter applies the filter, Esc
    /// clears it, Backspace and characters edit it with the matches shown
    /// as it is typed.
    fn handle_filter_key(&mut self, code: Key)
        ensures
            final(self)@ == filter_step(old(self)@, code),
            same_data(*old(self), *final(self)),
    {
        match code {
            Key::Enter => {
                self.filter_active = false;
                self.recompute_filter();
            },
            Key::Esc => self.cancel_filter(),
            Key::Backspace => {
                let mut v = to_chars(self.filter_text.as_str());
                if v.len() > 0 {
                    v.pop();
                }
                self.filter_text = from_chars(v.as_slice());
                self.recompute_filter();
            },
            Key::Char(c) => {
                let mut v = to_chars(self.filter_text.as_str());
                v.push(c);
                self.filter_text = from_chars(v.as_slice());
                self.recompute_filter();
            },
            _ => {},
        }
    }

    /// Makes the selected command pending and closes the options overlay.
    fn confirm_options(&mut self)
        ensures
            final(self)@ == options_confirmed(old(self)@),
            same_data(*old(self), *final(self)),
    {
        if self.selected_command < self.command_rows.len() {
            let name = self.command_rows[self.selected_command].name.clone();
            self.pending_command = Some(name);
        }
        self.show_options = false;
    }

    /// Closes the options overlay without running.
    fn dismiss_options(&mut self)
        ensures
            final(self)@ == options_dismissed(old(self)@),
            same_data(*old(self), *final(self)),
    {
        self.show_options = false;
        self.command_opts = None;
        self.selected_option = 0;
    }

    /// A key while the options overlay shows.
    fn handle_options_key(&mut self, code: Key)
        ensures
            final(self)@ == options_step(old(self)@, code),
            same_data(*old(self), *final(self)),
    {
        let count: usize = match &self.command_opts {
            Some(o) => o.option_count(),
            None => 0,
        };
        assert(count <= 5) by {
            match self.command_opts {
                Some(o) => {
                    match o {
                        CommandOpts::Analyze { .. } => {},
                        CommandOpts::Bootstrap { .. } => {},
                        CommandOpts::Clean { .. } => {},
                        CommandOpts::Format { .. } => {},
                        CommandOpts::Test { .. } => {},
                        CommandOpts::Publish { .. } => {},
                        CommandOpts::Health { .. } => {},
                        CommandOpts::Pub { .. } => {},
                    }
                },
                None => {},
            }
        }
        let sel = self.selected_option;
        if code == Key::Esc || code == Key::Char('q') {
            self.dismiss_options();
        } else if code == Key::Enter {
            self.confirm_options();
        } else if code == Key::Char('j') || code == Key::Down {
            let total = count + 1;
            let s = sel % total;
            proof {
                lemma_mod_step(sel as int, total as int);
            }
            self.selected_option = if s + 1 == total {
                0
            } else {
                s + 1
            };
        } else if code == Key::Char('k') || code == Key::Up {
            self.selected_option = if sel == 0 {
                count
            } else {
                sel - 1
            };
        } else if code == Key::Char(' ') {
            if sel < count {
                match &mut self.command_opts {
                    Some(o) => o.toggle_bool(sel),
                    None => {},
                }
            } else {
                self.confirm_options();
            }
        } else if code == Key::Char('+') || code == Key::Right {
            if sel < count {
                match &mut self.command_opts {
                    Some(o) => o.increment_at(sel),
                    None => {},
                }
            }
        } else if code == Key::Char('-') || code == Key::Left {
            if sel < count {
                match &mut self.command_opts {
                    Some(o) => o.decrement_at(sel),
                    None => {},
                }
            }
        }
    }
}

impl App {
    /// Enter on the command panel: opens the options overlay for a command
    /// that runs from here, and makes any other command pending.
    fn request_execute(&mut self)
        ensures
            final(self)@ == execute_requested(old(self)@),
            same_data(*old(self), *final(self)),
    {
        if self.state != AppState::Idle || self.active_panel != ActivePanel::Commands {
            return;
        }
        if self.selected_command < self.command_rows.len() {
            let row = &self.command_rows[self.selected_command];
            if row.is_supported {
                match CommandOpts::build_default(row.name.as_str()) {
                    Some(opts) => {
                        self.command_opts = Some(opts);
                        self.selected_option = 0;
                        self.show_options = true;
                        return;
                    },
                    None => {},
                }
            }
            let name = self.command_rows[self.selected_command].name.clone();
            self.pending_command = Some(name);
        }
    }

    /// A key while a command runs.
    fn running_key(&mut self, code: Key, ctrl: bool)
        ensures
            final(self)@ == running_step(old(self)@, code, ctrl),
            same_data(*old(self), *final(self)),
    {
        let half = self.half_page_exec();
        let page = self.page_size;
        if code == Key::Esc {
            self.pending_cancel = true;
        } else if code == Key::Char('c') && ctrl {
            self.quit = true;
        } else if (code == Key::Up || code == Key::Char('k')) && !ctrl {
            self.scroll_output_up(1);
            self.auto_scroll = false;
        } else if (code == Key::Down || code == Key::Char('j')) && !ctrl {
            self.scroll_output_down(1);
            self.update_auto_scroll();
        } else if (code == Key::Home || code == Key::Char('g')) && !ctrl {
            self.output_scroll = 0;
            self.auto_scroll = false;
        } else if (code == Key::End || code == Key::Char('G')) && !ctrl {
            self.scroll_output_end();
            self.auto_scroll = true;
        } else if code == Key::Char('d') && ctrl {
            self.scroll_output_down(half);
            self.update_auto_scroll();
        } else if code == Key::Char('u') && ctrl {
            self.scroll_output_up(half);
            self.auto_scroll = false;
        } else if code == Key::PageDown || (code == Key::Char('f') && !ctrl) {
            self.scroll_output_down(page);
            self.update_auto_scroll();
        } else if code == Key::PageUp || (code == Key::Char('b') && !ctrl) {
            self.scroll_output_up(page);
            self.auto_scroll = false;
        }
    }

    /// A key on the results.
    fn done_key(&mut self, code: Key, ctrl: bool)
        ensures
            final(self)@ == done_step(old(self)@, code, ctrl),
            same_data(*old(self), *final(self)),
    {
        let half = self.half_page_exec();
        let page = self.page_size;
        let has_report = self.health_report.is_some();
        if (code == Key::Esc || code == Key::Enter || code == Key::Char('q')) && !ctrl {
            self.state = AppState::Idle;
        } else if code == Key::Char('c') && ctrl {
            self.quit = true;
        } else if code == Key::Tab && has_report {
            self.health_tab = (self.health_tab % 3 + 1) % 3;
        } else if code == Key::BackTab && has_report {
            self.health_tab = if self.health_tab == 0 {
                2
            } else {
                self.health_tab - 1
            };
        } else if (code == Key::Up || code == Key::Char('k')) && !ctrl {
            self.scroll_output_up(1);
        } else if (code == Key::Down || code == Key::Char('j')) && !ctrl {
            self.scroll_output_down(1);
        } else if (code == Key::Home || code == Key::Char('g')) && !ctrl {
            self.output_scroll = 0;
        } else if (code == Key::End || code == Key::Char('G')) && !ctrl {
            self.scroll_output_end();
        } else if code == Key::Char('d') && ctrl {
            self.scroll_output_down(half);
        } else if code == Key::Char('u') && ctrl {
            self.scroll_output_up(half);
        } else if code == Key::PageDown || code == Key::Char('f') {
            self.scroll_output_down(page);
        } else if code == Key::PageUp || code == Key::Char('b') {
            self.scroll_output_up(page);
        }
    }

    /// A key in the idle phase.
    fn idle_key(&mut self, code: Key, ctrl: bool)
        ensures
            final(self)@ == idle_step(old(self)@, code, ctrl),
            same_data(*old(self), *final(self)),
    {
        let half = self.half_page_exec();
        let page = self.page_size;
        if code == Key::Char('q') && !ctrl {
            self.quit = true;
        } else if code == Key::Char('c') && ctrl {
            self.quit = true;
        } else if code == Key::Esc {
            if self.has_filter() {
                self.cancel_filter();
            } else {
                self.quit = true;
            }
        } else if code == Key::Enter {
            self.request_execute();
        } else if code == Key::Tab || code == Key::BackTab {
            self.active_panel = match self.active_panel {
                ActivePanel::Packages => ActivePanel::Commands,
                ActivePanel::Commands => ActivePanel::Packages,
            };
        } else if (code == Key::Char('h') && !ctrl) || code == Key::Left {
            self.active_panel = ActivePanel::Packages;
        } else if (code == Key::Char('l') && !ctrl) || code == Key::Right {
            self.active_panel = ActivePanel::Commands;
        } else if (code == Key::Up || code == Key::Char('k')) && !ctrl {
            self.move_selection(false, 1);
        } else if (code == Key::Down || code == Key::Char('j')) && !ctrl {
            self.move_selection(true, 1);
        } else if (code == Key::Home || code == Key::Char('g')) && !ctrl {
            self.set_active_selection(0);
        } else if (code == Key::End || code == Key::Char('G')) && !ctrl {
            self.jump_selection_end();
        } else if code == Key::Char('d') && ctrl {
            self.move_selection(true, half);
        } else if code == Key::Char('u') && ctrl {
            self.move_selection(false, half);
        } else if code == Key::PageDown || code == Key::Char('f') {
            self.move_selection(true, page);
        } else if code == Key::PageUp || code == Key::Char('b') {
            self.move_selection(false, page);
        } else if code == Key::Char('?') {
            self.show_help = true;
        } else if code == Key::Char('/') && !ctrl {
            self.filter_active = true;
        } else if code == Key::Char('t') && !ctrl {
            self.cycle_theme();
        }
    }

    /// Handles a key press; `ctrl` tells whether Control was held.
    pub fn handle_key(&mut self, code: Key, ctrl: bool)
        ensures
            final(self)@ == key_step(old(self)@, code, ctrl),
            same_data(*old(self), *final(self)),
    {
        if self.show_help {
            if code == Key::Char('?') || code == Key::Esc {
                self.show_help = false;
            }
            return;
        }
        if self.show_options {
            self.handle_options_key(code);
            return;
        }
        if self.filter_active {
            self.handle_filter_key(code);
            return;
        }
        match self.state {
            AppState::Running => self.running_key(code, ctrl),
            AppState::Done => self.done_key(code, ctrl),
            AppState::Idle => self.idle_key(code, ctrl),
        }
    }
}

// ---------------------------------------------------------------------------
// Creation and the workspace
// ---------------------------------------------------------------------------

/// Whether a command can run from the interface without further arguments.
pub open spec fn supported_name(n: Seq<char>) -> bool {
    exists|j: int| 0 <= j < 8 && #[trigger] SUPPORTED_COMMANDS@[j]@ == n
}

/// Whether `rows` begins with the rows of the built-in commands, in picker
/// order.
pub open spec fn builtin_rows(rows: Seq<CommandRow>) -> bool {
    &&& rows.len() >= 13
    &&& forall|i: int|
        0 <= i < 13 ==> (#[trigger] rows[i]).name@ == BUILTIN_COMMANDS@[i]@ && rows[i].description is None
            && rows[i].is_builtin && rows[i].is_supported == supported_name(BUILTIN_COMMANDS@[i]@)
}

fn is_supported_command(name: &str) -> (r: bool)
    ensures
        r == supported_name(name@),
{
    let mut j: usize = 0;
    while j < 8
        invariant
            j <= 8,
            forall|k: int| 0 <= k < j ==> SUPPORTED_COMMANDS@[k]@ != name@,
        decreases 8 - j,
    {
        if str_eq(SUPPORTED_COMMANDS[j], name) {
            return true;
        }
        j += 1;
    }
    false
}

/// The rows of the built-in commands.
fn builtin_command_rows() -> (r: Vec<CommandRow>)
    ensures
        builtin_rows(r@),
        r@.len() == 13,
{
    let mut rows: Vec<CommandRow> = Vec::new();
    let mut i: usize = 0;
    while i < 13
        invariant
            i <= 13,
            rows@.len() == i,
            forall|k: int|
                0 <= k < i ==> (#[trigger] rows@[k]).name@ == BUILTIN_COMMANDS@[k]@ && rows@[k].description is None
                    && rows@[k].is_builtin && rows@[k].is_supported == supported_name(BUILTIN_COMMANDS@[k]@),
        decreases 13 - i,
    {
        let name = BUILTIN_COMMANDS[i];
        let supported = is_supported_command(name);
        rows.push(CommandRow { name: name.to_owned(), description: None, is_builtin: true, is_supported: supported });
        i += 1;
    }
    rows
}

/// The sort key of a script: its name in lower case.
pub open spec fn script_key(scripts: Seq<(String, ScriptEntry)>, i: int) -> Seq<char> {
    lowercase(scripts[i].0@)
}

/// The sort keys of the scripts.
pub open spec fn script_keys(scripts: Seq<(String, ScriptEntry)>) -> Seq<Seq<char>> {
    Seq::new(scripts.len(), |i: int| script_key(scripts, i))
}

/// Whether `order` lists every script once, sorted by lower-case name with
/// ties kept in their order: the stable sort of the scripts.
pub open spec fn sorted_scripts(scripts: Seq<(String, ScriptEntry)>, order: Seq<usize>) -> bool {
    crate::order::stably_sorted(script_keys(scripts), order)
}

/// The stable sort of the scripts by lower-case name, as positions.
fn sort_scripts(scripts: &Vec<(String, ScriptEntry)>) -> (order: Vec<usize>)
    ensures
        sorted_scripts(scripts@, order@),
{
    let n = scripts.len();
    let mut keys: Vec<Vec<char>> = Vec::new();
    let mut i: usize = 0;
    while i < n
        invariant
            i <= n == scripts@.len(),
            keys@.len() == i,
            forall|k: int| 0 <= k < i ==> (#[trigger] keys@[k])@ == script_key(scripts@, k),
        decreases n - i,
    {
        let l = to_lowercase(scripts[i].0.as_str());
        keys.push(to_chars(l.as_str()));
        i += 1;
    }
    proof {
        crate::text::lemma_deep_view_chars(keys);
        assert(keys.deep_view() =~= script_keys(scripts@));
    }
    crate::order::stable_order(&keys)
}

/// Whether `b` keeps every field of `a` that loading a workspace leaves.
pub open spec fn load_keeps(a: App, b: App) -> bool {
    &&& b.state == a.state
    &&& b.quit == a.quit
    &&& b.active_panel == a.active_panel
    &&& b.theme_index == a.theme_index
    &&& b.page_size == a.page_size
    &&& b.show_help == a.show_help
    &&& b.pending_command == a.pending_command
    &&& b.pending_cancel == a.pending_cancel
    &&& b.running_command == a.running_command
    &&& b.running_packages == a.running_packages
    &&& b.finished_packages == a.finished_packages
    &&& b.progress == a.progress
    &&& b.output_log == a.output_log
    &&& b.exec_messages == a.exec_messages
    &&& b.command_error == a.command_error
    &&& b.output_scroll == a.output_scroll
    &&& b.auto_scroll == a.auto_scroll
    &&& b.command_start == a.command_start
    &&& b.health_report == a.health_report
    &&& b.health_tab == a.health_tab
    &&& b.show_options == a.show_options
    &&& b.command_opts == a.command_opts
    &&& b.selected_option == a.selected_option
    &&& b.filter_active == a.filter_active
    &&& b.filter_text == a.filter_text
    &&& b.filtered_indices == a.filtered_indices
}

impl App {
    /// A new interface in the idle phase with no workspace: the built-in
    /// commands listed, pages of twenty rows, the first theme.
    pub fn new() -> (r: Self)
        ensures
            r.state == AppState::Idle,
            !r.quit,
            r.active_panel == ActivePanel::Packages,
            r.theme_index == 0,
            r.workspace_name is None,
            r.config_source_label is None,
            r.package_rows@.len() == 0,
            r.selected_package == 0,
            builtin_rows(r.command_rows@),
            r.command_rows@.len() == 13,
            r.selected_command == 0,
            r.page_size == 20,
            r.warnings@.len() == 0,
            !r.show_help,
            r.pending_command is None,
            !r.pending_cancel,
            r.running_command is None,
            r.running_packages@.len() == 0,
            r.finished_packages@.len() == 0,
            r.progress is None,
            r.output_log@.len() == 0,
            r.exec_messages@.len() == 0,
            r.command_error is None,
            r.output_scroll == 0,
            r.auto_scroll,
            r.command_start is None,
            r.health_report is None,
            r.health_tab == 0,
            !r.show_options,
            r.command_opts is None,
            r.selected_option == 0,
            !r.filter_active,
            r.filter_text@.len() == 0,
            r.filtered_indices@.len() == 0,
    {
        App {
            state: AppState::Idle,
            quit: false,
            active_panel: ActivePanel::Packages,
            theme_index: 0,
            workspace_name: None,
            config_source_label: None,
            package_rows: Vec::new(),
            selected_package: 0,
            command_rows: builtin_command_rows(),
            selected_command: 0,
            page_size: 20,
            warnings: Vec::new(),
            show_help: false,
            pending_command: None,
            pending_cancel: false,
            running_command: None,
            running_packages: Vec::new(),
            finished_packages: Vec::new(),
            progress: None,
            output_log: Vec::new(),
            exec_messages: Vec::new(),
            command_error: None,
            output_scroll: 0,
            auto_scroll: true,
            command_start: None,
            health_report: None,
            health_tab: 0,
            show_options: false,
            command_opts: None,
            selected_option: 0,
            filter_active: false,
            filter_text: String::new(),
            filtered_indices: Vec::new(),
        }
    }

    /// Shows a workspace: its name, where its configuration came from, its
    /// warnings, a row per package, and the command rows (the built-in
    /// commands, then the scripts sorted by name ignoring case); both
    /// selections go to the top.
    pub fn load_workspace(&mut self, workspace: &Workspace)
        ensures
            load_keeps(*old(self), *final(self)),
            opt_str(final(self).workspace_name) == Some(workspace.config.name@),
            opt_str(final(self).config_source_label) == Some(
                if workspace.config_source is MelosYaml {
                    "melos.yaml"@
                } else {
                    "pubspec.yaml"@
                },
            ),
            views(final(self).warnings@) == views(workspace.warnings@),
            final(self).package_rows@.len() == workspace.packages@.len(),
            forall|i: int|
                0 <= i < workspace.packages@.len() ==> {
                    let row = #[trigger] final(self).package_rows@[i];
                    let p = workspace.packages@[i];
                    &&& row.name@ == p.name@
                    &&& row.version@ == match p.version {
                        Some(v) => v@,
                        None => Seq::empty(),
                    }
                    &&& row.sdk@ == (if p.is_flutter {
                        "Flutter"@
                    } else {
                        "Dart"@
                    })
                    &&& row.is_private == crate::package::is_private_spec(p@)
                    &&& row.path@ == match crate::tui::path_relative_to(p.path@, workspace.root_path@) {
                        Some(rel) => rel,
                        None => p.path@,
                    }
                },
            builtin_rows(final(self).command_rows@),
            final(self).command_rows@.len() == 13 + workspace.config.scripts@.len(),
            exists|order: Seq<usize>|
                sorted_scripts(workspace.config.scripts@, order) && forall|k: int|
                    0 <= k < order.len() ==> {
                        let row = #[trigger] final(self).command_rows@[13 + k];
                        let script = workspace.config.scripts@[order[k] as int];
                        &&& row.name@ == script.0@
                        &&& opt_str(row.description) == match script.1 {
                            ScriptEntry::Simple(_) => None,
                            ScriptEntry::Full(c) => opt_str(c.description),
                        }
                        &&& !row.is_builtin
                        &&& !row.is_supported
                    },
            final(self).selected_package == 0,
            final(self).selected_command == 0,
    {
        self.workspace_name = Some(workspace.config.name.clone());
        self.config_source_label = Some(
            if workspace.config_source.is_legacy() {
                "melos.yaml".to_owned()
            } else {
                "pubspec.yaml".to_owned()
            },
        );
        self.warnings = crate::package::copy_strings(&workspace.warnings);
        let mut rows: Vec<PackageRow> = Vec::new();
        let mut i: usize = 0;
        while i < workspace.packages.len()
            invariant
                i <= workspace.packages@.len(),
                rows@.len() == i,
                forall|k: int|
                    0 <= k < i ==> {
                        let row = #[trigger] rows@[k];
                        let p = workspace.packages@[k];
                        &&& row.name@ == p.name@
                        &&& row.version@ == match p.version {
                            Some(v) => v@,
                            None => Seq::empty(),
                        }
                        &&& row.sdk@ == (if p.is_flutter {
                            "Flutter"@
                        } else {
                            "Dart"@
                        })
                        &&& row.is_private == crate::package::is_private_spec(p@)
                        &&& row.path@ == match crate::tui::path_relative_to(p.path@, workspace.root_path@) {
                            Some(rel) => rel,
                            None => p.path@,
                        }
                    },
            decreases workspace.packages@.len() - i,
        {
            rows.push(PackageRow::from_package(&workspace.packages[i], workspace.root_path.as_str()));
            i += 1;
        }
        self.package_rows = rows;
        let mut commands = builtin_command_rows();
        let scripts = &workspace.config.scripts;
        let order = sort_scripts(scripts);
        let mut k: usize = 0;
        while k < order.len()
            invariant
                k <= order@.len(),
                sorted_scripts(scripts@, order@),
                builtin_rows(commands@),
                commands@.len() == 13 + k,
                forall|m: int|
                    0 <= m < k ==> {
                        let row = #[trigger] commands@[13 + m];
                        let script = scripts@[order@[m] as int];
                        &&& row.name@ == script.0@
                        &&& opt_str(row.description) == match script.1 {
                            ScriptEntry::Simple(_) => None,
                            ScriptEntry::Full(c) => opt_str(c.description),
                        }
                        &&& !row.is_builtin
                        &&& !row.is_supported
                    },
            decreases order@.len() - k,
        {
            let idx = order[k];
            let entry = &scripts[idx];
            let description = match entry.1.description() {
                Some(d) => Some(d.to_owned()),
                None => None,
            };
            let ghost before = commands@;
            commands.push(
                CommandRow { name: entry.0.clone(), description, is_builtin: false, is_supported: false },
            );
            assert forall|j: int| 0 <= j < 13 implies commands@[j] == before[j] by {}
            k += 1;
        }
        self.command_rows = commands;
        self.selected_package = 0;
        self.selected_command = 0;
    }
}

// ---------------------------------------------------------------------------
// Running a command
// ---------------------------------------------------------------------------

#[verifier::external_type_specification]
#[verifier::external_body]
pub struct ExAnyhowError(anyhow::Error);

#[verifier::external_type_specification]
#[verifier::external_body]
pub struct ExJoinError(tokio::task::JoinError);

/// The `Display` text of an `anyhow::Error` (its outermost message). The
/// text is not stated.
#[verifier::external_body]
fn error_text(e: &anyhow::Error) -> (r: String) {
    format!("{e}")
}

/// `JoinError::is_cancelled`: whether the task was cancelled rather than
/// having panicked. Not stated: the error is opaque here.
#[verifier::external_body]
fn join_cancelled(e: &tokio::task::JoinError) -> (r: bool) {
    e.is_cancelled()
}

/// The `Display` text of a `JoinError` (which task, and how it ended). The
/// text is not stated.
#[verifier::external_body]
fn join_error_text(e: &tokio::task::JoinError) -> (r: String) {
    format!("{e}")
}

/// What the progress events read and change.
pub struct RunView {
    pub running: Seq<Seq<char>>,
    pub finished: Seq<(Seq<char>, bool, Duration)>,
    pub progress: Option<(usize, usize, Seq<char>)>,
    pub log: Seq<(Seq<char>, Seq<char>, bool)>,
    pub messages: Seq<Seq<char>>,
    pub scroll: usize,
}

pub open spec fn finished_view(v: Seq<(String, bool, Duration)>) -> Seq<(Seq<char>, bool, Duration)> {
    v.map_values(|t: (String, bool, Duration)| (t.0@, t.1, t.2))
}

pub open spec fn log_view(v: Seq<(String, String, bool)>) -> Seq<(Seq<char>, Seq<char>, bool)> {
    v.map_values(|t: (String, String, bool)| (t.0@, t.1@, t.2))
}

pub open spec fn progress_view(p: Option<(usize, usize, String)>) -> Option<(usize, usize, Seq<char>)> {
    match p {
        Some(t) => Some((t.0, t.1, t.2@)),
        None => None,
    }
}

pub open spec fn run_view(a: App) -> RunView {
    RunView {
        running: views(a.running_packages@),
        finished: finished_view(a.finished_packages@),
        progress: progress_view(a.progress),
        log: log_view(a.output_log@),
        messages: views(a.exec_messages@),
        scroll: a.output_scroll,
    }
}

/// `s` without the occurrences of `x`.
pub open spec fn without(s: Seq<Seq<char>>, x: Seq<char>) -> Seq<Seq<char>>
    decreases s.len(),
{
    if s.len() == 0 {
        seq![]
    } else {
        without(s.drop_last(), x) + if s.last() == x {
            seq![]
        } else {
            seq![s.last()]
        }
    }
}

/// The output with a line added; beyond [`MAX_SCROLLBACK`] lines the
/// oldest go, and the scroll position moves up with the text.
pub open spec fn with_line(r: RunView, line: (Seq<char>, Seq<char>, bool)) -> RunView {
    let l = r.log.push(line);
    if l.len() > MAX_SCROLLBACK {
        let excess = l.len() - MAX_SCROLLBACK;
        RunView { log: l.skip(excess), scroll: sat_sub(r.scroll as int, excess), ..r }
    } else {
        RunView { log: l, ..r }
    }
}

/// What an event does to the execution state.
pub open spec fn event_step(r: RunView, e: Event) -> RunView {
    match e {
        Event::CommandStarted { command, package_count } => RunView {
            progress: Some((0, package_count, command@)),
            ..r
        },
        Event::PackageStarted { name } => RunView { running: r.running.push(name@), ..r },
        Event::PackageFinished { name, success, duration } => RunView {
            running: without(r.running, name@),
            finished: r.finished.push((name@, success, duration)),
            progress: match r.progress {
                Some(p) => Some(((p.0 + 1) as usize, p.1, p.2)),
                None => None,
            },
            ..r
        },
        Event::PackageOutput { name, line, is_stderr } => with_line(r, (name@, strip_from(line@, 0), is_stderr)),
        Event::Progress { completed, total, message } => RunView {
            progress: Some((completed, total, message@)),
            ..r
        },
        Event::Warning(msg) => RunView { messages: r.messages.push("warn: "@ + msg@), ..r },
        Event::Info(msg) => RunView { messages: r.messages.push(msg@), ..r },
        Event::CommandFinished { .. } => r,
    }
}

/// Whether `b` keeps every field of `a` that events leave.
pub open spec fn events_keep(a: App, b: App) -> bool {
    &&& b.state == a.state
    &&& b.quit == a.quit
    &&& b.active_panel == a.active_panel
    &&& b.theme_index == a.theme_index
    &&& b.workspace_name == a.workspace_name
    &&& b.config_source_label == a.config_source_label
    &&& b.package_rows == a.package_rows
    &&& b.selected_package == a.selected_package
    &&& b.command_rows == a.command_rows
    &&& b.selected_command == a.selected_command
    &&& b.page_size == a.page_size
    &&& b.warnings == a.warnings
    &&& b.show_help == a.show_help
    &&& b.pending_command == a.pending_command
    &&& b.pending_cancel == a.pending_cancel
    &&& b.running_command == a.running_command
    &&& b.command_error == a.command_error
    &&& b.auto_scroll == a.auto_scroll
    &&& b.command_start == a.command_start
    &&& b.health_report == a.health_report
    &&& b.health_tab == a.health_tab
    &&& b.show_options == a.show_options
    &&& b.command_opts == a.command_opts
    &&& b.selected_option == a.selected_option
    &&& b.filter_active == a.filter_active
    &&& b.filter_text == a.filter_text
    &&& b.filtered_indices == a.filtered_indices
}

/// Whether `b` keeps the fields of `a` that the phase changes leave: the
/// workspace, the navigation and the overlays.
pub open spec fn phase_keeps(a: App, b: App) -> bool {
    &&& b.quit == a.quit
    &&& b.active_panel == a.active_panel
    &&& b.theme_index == a.theme_index
    &&& b.workspace_name == a.workspace_name
    &&& b.config_source_label == a.config_source_label
    &&& b.package_rows == a.package_rows
    &&& b.selected_package == a.selected_package
    &&& b.command_rows == a.command_rows
    &&& b.selected_command == a.selected_command
    &&& b.page_size == a.page_size
    &&& b.warnings == a.warnings
    &&& b.show_help == a.show_help
    &&& b.pending_command == a.pending_command
    &&& b.pending_cancel == a.pending_cancel
    &&& b.show_options == a.show_options
    &&& b.command_opts == a.command_opts
    &&& b.selected_option == a.selected_option
    &&& b.filter_active == a.filter_active
    &&& b.filter_text == a.filter_text
    &&& b.filtered_indices == a.filtered_indices
}

/// The names of `v` other than `name`, in order.
fn without_name(v: &Vec<String>, name: &str) -> (r: Vec<String>)
    ensures
        views(r@) == without(views(v@), name@),
{
    let mut kept: Vec<String> = Vec::new();
    let mut i: usize = 0;
    while i < v.len()
        invariant
            i <= v@.len(),
            views(kept@) == without(views(v@).take(i as int), name@),
        decreases v@.len() - i,
    {
        let ghost before = views(kept@);
        assert(views(v@).take(i + 1).drop_last() =~= views(v@).take(i as int));
        assert(views(v@).take(i + 1).last() == v@[i as int]@);
        if !str_eq(v[i].as_str(), name) {
            kept.push(v[i].clone());
            assert(views(kept@) =~= before.push(v@[i as int]@));
        } else {
            assert(before + seq![] =~= before);
        }
        i += 1;
    }
    assert(views(v@).take(v@.len() as int) =~= views(v@));
    kept
}

/// Drops the first `n` lines of the output.
fn drop_front(log: &mut Vec<(String, String, bool)>, n: usize)
    requires
        n <= old(log)@.len(),
    ensures
        log_view(final(log)@) == log_view(old(log)@).skip(n as int),
{
    let ghost l = log_view(log@);
    let mut k: usize = 0;
    while k < n
        invariant
            k <= n <= l.len(),
            log_view(log@) == l.skip(k as int),
            log@.len() == l.len() - k,
        decreases n - k,
    {
        let ghost before = log@;
        log.remove(0);
        assert forall|j: int| 0 <= j < log@.len() implies #[trigger] log_view(log@)[j] == l.skip(k + 1)[j] by {
            assert(log@[j] == before[j + 1]);
            assert(log_view(before)[j + 1] == l.skip(k as int)[j + 1]);
        }
        assert(log_view(log@) =~= l.skip(k + 1));
        k += 1;
    }
}

impl App {
    /// Enters the running phase for a command: the execution state and the
    /// last results are cleared, the output is followed, and the clock
    /// starts.
    pub fn start_command(&mut self, name: &str)
        ensures
            phase_keeps(*old(self), *final(self)),
            final(self).state == AppState::Running,
            opt_str(final(self).running_command) == Some(name@),
            final(self).running_packages@.len() == 0,
            final(self).finished_packages@.len() == 0,
            final(self).progress is None,
            final(self).output_log@.len() == 0,
            final(self).exec_messages@.len() == 0,
            final(self).command_error is None,
            final(self).output_scroll == 0,
            final(self).auto_scroll,
            final(self).command_start is Some,
            final(self).health_report is None,
            final(self).health_tab == 0,
    {
        self.state = AppState::Running;
        self.running_command = Some(name.to_owned());
        self.running_packages.clear();
        self.finished_packages.clear();
        self.progress = None;
        self.output_log.clear();
        self.exec_messages.clear();
        self.command_error = None;
        self.output_scroll = 0;
        self.auto_scroll = true;
        self.command_start = Some(instant_now());
        self.health_report = None;
        self.health_tab = 0;
    }

    /// Takes in a progress event of the running command.
    pub fn handle_core_event(&mut self, event: Event)
        requires
            (event is PackageFinished && old(self).progress is Some) ==> old(self).progress.unwrap().0
                < usize::MAX,
        ensures
            events_keep(*old(self), *final(self)),
            run_view(*final(self)) == event_step(run_view(*old(self)), event),
    {
        let ghost old_run = run_view(*self);
        let ghost e = event;
        match event {
            Event::CommandStarted { command, package_count } => {
                self.progress = Some((0, package_count, command));
            },
            Event::PackageStarted { name } => {
                self.running_packages.push(name);
                assert(views(self.running_packages@) =~= old_run.running.push(e->PackageStarted_name@));
            },
            Event::PackageFinished { name, success, duration } => {
                self.running_packages = without_name(&self.running_packages, name.as_str());
                self.finished_packages.push((name, success, duration));
                assert(finished_view(self.finished_packages@) =~= old_run.finished.push((e->PackageFinished_name@, success, duration)));
                match &mut self.progress {
                    Some(p) => {
                        p.0 = p.0 + 1;
                    },
                    None => {},
                }
            },
            Event::PackageOutput { name, line, is_stderr } => {
                let clean = strip_ansi(line.as_str());
                self.output_log.push((name, clean, is_stderr));
                let ghost l = log_view(self.output_log@);
                assert(l =~= old_run.log.push((e->PackageOutput_name@, strip_from(e->PackageOutput_line@, 0), is_stderr)));
                if self.output_log.len() > MAX_SCROLLBACK {
                    let excess = self.output_log.len() - MAX_SCROLLBACK;
                    drop_front(&mut self.output_log, excess);
                    self.output_scroll = if self.output_scroll >= excess {
                        self.output_scroll - excess
                    } else {
                        0
                    };
                }
            },
            Event::Progress { completed, total, message } => {
                self.progress = Some((completed, total, message));
            },
            Event::Warning(msg) => {
                let mut m: Vec<char> = Vec::new();
                crate::text::append_str(&mut m, "warn: ");
                crate::text::append_str(&mut m, msg.as_str());
                self.exec_messages.push(from_chars(m.as_slice()));
                assert(views(self.exec_messages@) =~= old_run.messages.push("warn: "@ + e->Warning_0@));
            },
            Event::Info(msg) => {
                self.exec_messages.push(msg);
                assert(views(self.exec_messages@) =~= old_run.messages.push(e->Info_0@));
            },
            Event::CommandFinished { .. } => {},
        }
    }

    /// Enters the results phase once the command's task has ended: a failure
    /// is kept as the error message, a cancellation is none. The name of the
    /// command stays for the results header.
    pub fn on_command_finished(&mut self, result: Result<anyhow::Result<()>, tokio::task::JoinError>)
        ensures
            phase_keeps(*old(self), *final(self)),
            final(self).state == AppState::Done,
            final(self).running_packages@.len() == 0,
            final(self).command_start is None,
            final(self).running_command == old(self).running_command,
            final(self).finished_packages == old(self).finished_packages,
            final(self).progress == old(self).progress,
            final(self).output_log == old(self).output_log,
            final(self).exec_messages == old(self).exec_messages,
            final(self).output_scroll == old(self).output_scroll,
            final(self).auto_scroll == old(self).auto_scroll,
            final(self).health_report == old(self).health_report,
            final(self).health_tab == old(self).health_tab,
            match result {
                Ok(Ok(())) => final(self).command_error == old(self).command_error,
                Ok(Err(_)) => final(self).command_error is Some,
                Err(_) => final(self).command_error == old(self).command_error
                    || (final(self).command_error matches Some(m) && crate::text::starts_with(m@, "task panicked: "@)),
            },
    {
        self.state = AppState::Done;
        self.running_packages.clear();
        self.command_start = None;
        match result {
            Ok(Ok(())) => {},
            Ok(Err(e)) => {
                self.command_error = Some(error_text(&e));
            },
            Err(e) => {
                if !join_cancelled(&e) {
                    let t = join_error_text(&e);
                    let mut m: Vec<char> = Vec::new();
                    crate::text::append_str(&mut m, "task panicked: ");
                    crate::text::append_str(&mut m, t.as_str());
                    proof {
                        reveal_strlit("task panicked: ");
                        assert(m@.take(15) =~= "task panicked: "@);
                    }
                    self.command_error = Some(from_chars(m.as_slice()));
                }
            },
        }
    }

    /// Goes back to idle after a cancellation, clearing what ran.
    pub fn on_command_cancelled(&mut self)
        ensures
            phase_keeps(*old(self), *final(self)),
            final(self).state == AppState::Idle,
            final(self).running_command is None,
            final(self).running_packages@.len() == 0,
            final(self).command_start is None,
            final(self).finished_packages == old(self).finished_packages,
            final(self).progress == old(self).progress,
            final(self).output_log == old(self).output_log,
            final(self).exec_messages == old(self).exec_messages,
            final(self).command_error == old(self).command_error,
            final(self).output_scroll == old(self).output_scroll,
            final(self).auto_scroll == old(self).auto_scroll,
            final(self).health_report == old(self).health_report,
            final(self).health_tab == old(self).health_tab,
    {
        self.state = AppState::Idle;
        self.running_command = None;
        self.running_packages.clear();
        self.command_start = None;
    }

    /// Keeps the report of a finished health command.
    pub fn set_health_report(&mut self, report: HealthReport)
        ensures
            final(self)@ == (AppView { has_report: true, ..old(self)@ }),
            final(self).health_report == Some(report),
            final(self).running_packages == old(self).running_packages,
            final(self).finished_packages == old(self).finished_packages,
            final(self).progress == old(self).progress,
            final(self).output_log == old(self).output_log,
            final(self).exec_messages == old(self).exec_messages,
            final(self).workspace_name == old(self).workspace_name,
            final(self).config_source_label == old(self).config_source_label,
            final(self).package_rows == old(self).package_rows,
            final(self).command_rows == old(self).command_rows,
            final(self).warnings == old(self).warnings,
            final(self).running_command == old(self).running_command,
            final(self).command_error == old(self).command_error,
            final(self).command_start == old(self).command_start,
    {
        self.health_report = Some(report);
    }

    /// The time since the running command started; `None` when none runs.
    pub fn elapsed(&self) -> (r: Option<Duration>)
        ensures
            r is Some == self.command_start is Some,
    {
        match &self.command_start {
            Some(start) => Some(instant_elapsed(start)),
            None => None,
        }
    }
}

/// The rows that references point to.
pub open spec fn derefs(v: Seq<&PackageRow>) -> Seq<PackageRow> {
    v.map_values(|r: &PackageRow| *r)
}

/// The rows at the positions `idx` that exist, in that order.
pub open spec fn picked(rows: Seq<PackageRow>, idx: Seq<usize>) -> Seq<PackageRow>
    decreases idx.len(),
{
    if idx.len() == 0 {
        seq![]
    } else {
        picked(rows, idx.drop_last()) + if idx.last() < rows.len() {
            seq![rows[idx.last() as int]]
        } else {
            seq![]
        }
    }
}

impl App {
    /// The package rows that show: the matches of an applied filter, or
    /// all of them.
    pub fn visible_packages(&self) -> (r: Vec<&PackageRow>)
        ensures
            derefs(r@) == (if has_filter_spec(self@) {
                picked(self.package_rows@, self.filtered_indices@)
            } else {
                self.package_rows@
            }),
    {
        let mut out: Vec<&PackageRow> = Vec::new();
        if self.has_filter() {
            let mut j: usize = 0;
            while j < self.filtered_indices.len()
                invariant
                    j <= self.filtered_indices@.len(),
                    derefs(out@) == picked(self.package_rows@, self.filtered_indices@.take(j as int)),
                decreases self.filtered_indices@.len() - j,
            {
                let i = self.filtered_indices[j];
                assert(self.filtered_indices@.take(j + 1).drop_last() =~= self.filtered_indices@.take(j as int));
                let ghost before = derefs(out@);
                if i < self.package_rows.len() {
                    out.push(&self.package_rows[i]);
                    assert(derefs(out@) =~= before.push(self.package_rows@[i as int]));
                } else {
                    assert(before + seq![] =~= before);
                }
                j += 1;
            }
            assert(self.filtered_indices@.take(self.filtered_indices@.len() as int) =~= self.filtered_indices@);
        } else {
            let mut i: usize = 0;
            while i < self.package_rows.len()
                invariant
                    i <= self.package_rows@.len(),
                    derefs(out@) == self.package_rows@.take(i as int),
                decreases self.package_rows@.len() - i,
            {
                let ghost before = derefs(out@);
                out.push(&self.package_rows[i]);
                assert(derefs(out@) =~= before.push(self.package_rows@[i as int]));
                assert(self.package_rows@.take(i + 1) =~= self.package_rows@.take(i as int).push(self.package_rows@[i as int]));
                i += 1;
            }
            assert(self.package_rows@.take(self.package_rows@.len() as int) =~= self.package_rows@);
        }
        out
    }
}

} // verus!

verus! {

// ---------------------------------------------------------------------------
// Laws
// ---------------------------------------------------------------------------

/// Whether each panel's selection lies within its rows (where it has any).
pub open spec fn valid_selection(v: AppView) -> bool {
    &&& visible_count(v) > 0 ==> v.selected_package < visible_count(v)
    &&& v.commands.len() > 0 ==> v.selected_command < v.commands.len()
}

proof fn lemma_moved_valid(v: AppView, down: bool, n: int)
    requires
        valid_selection(v),
        n >= 0,
    ensures
        valid_selection(moved(v, down, n)),
        valid_selection(at_end(v)),
        valid_selection(with_selection(v, 0)),
{
}

proof fn lemma_idle_selection(v: AppView, code: Key, ctrl: bool)
    requires
        valid_selection(v),
    ensures
        valid_selection(idle_step(v, code, ctrl)),
{
    lemma_moved_valid(v, true, 1);
    lemma_moved_valid(v, false, 1);
    lemma_moved_valid(v, true, half_page(v));
    lemma_moved_valid(v, false, half_page(v));
    lemma_moved_valid(v, true, v.page_size as int);
    lemma_moved_valid(v, false, v.page_size as int);
    assert(valid_selection(execute_requested(v)));
    assert(valid_selection(filter_cancelled(v)));
}

/// No key moves a selection off its panel's rows: a selection within its
/// rows stays within them.
pub proof fn lemma_selection_stays_valid(v: AppView, code: Key, ctrl: bool)
    requires
        valid_selection(v),
    ensures
        valid_selection(key_step(v, code, ctrl)),
{
    if v.show_help {
    } else if v.show_options {
        lemma_options_selection(v, code);
    } else if v.filter_active {
        lemma_filter_selection(v, code);
    } else if v.state == AppState::Running {
        lemma_running_selection(v, code, ctrl);
    } else if v.state == AppState::Done {
        lemma_done_selection(v, code, ctrl);
    } else {
        lemma_idle_selection(v, code, ctrl);
    }
}

proof fn lemma_options_selection(v: AppView, code: Key)
    requires
        valid_selection(v),
    ensures
        valid_selection(options_step(v, code)),
{
}

proof fn lemma_filter_selection(v: AppView, code: Key)
    requires
        valid_selection(v),
    ensures
        valid_selection(filter_step(v, code)),
{
}

proof fn lemma_running_selection(v: AppView, code: Key, ctrl: bool)
    requires
        valid_selection(v),
    ensures
        valid_selection(running_step(v, code, ctrl)),
{
}

proof fn lemma_done_selection(v: AppView, code: Key, ctrl: bool)
    requires
        valid_selection(v),
    ensures
        valid_selection(done_step(v, code, ctrl)),
{
}

proof fn lemma_options_row(v: AppView, code: Key)
    requires
        v.selected_option <= option_count_of(v),
    ensures
        options_step(v, code).selected_option <= option_count_of(options_step(v, code)),
{
    let count = option_count_of(v);
    match v.command_opts {
        Some(o) => {
            crate::tui::lemma_edits_keep_layout(o, v.selected_option as int);
        },
        None => {},
    }
    if code == Key::Char('j') || code == Key::Down {
        vstd::arithmetic::div_mod::lemma_mod_bound(v.selected_option + 1, count + 1);
    }
}

/// The overlay's selected row never goes past the run row.
pub proof fn lemma_option_row_stays_valid(v: AppView, code: Key, ctrl: bool)
    requires
        v.selected_option <= option_count_of(v),
    ensures
        key_step(v, code, ctrl).selected_option <= option_count_of(key_step(v, code, ctrl)),
{
    if v.show_help {
    } else if v.show_options {
        lemma_options_row(v, code);
    } else if v.filter_active {
        assert(filter_step(v, code).selected_option == v.selected_option);
        assert(filter_step(v, code).command_opts == v.command_opts);
    } else if v.state == AppState::Running {
        assert(running_step(v, code, ctrl).selected_option == v.selected_option);
        assert(running_step(v, code, ctrl).command_opts == v.command_opts);
    } else if v.state == AppState::Done {
        assert(done_step(v, code, ctrl).selected_option == v.selected_option);
        assert(done_step(v, code, ctrl).command_opts == v.command_opts);
    } else {
        let w = idle_step(v, code, ctrl);
        if code == Key::Enter {
            assert(w == execute_requested(v));
        } else if code == Key::Esc && has_filter_spec(v) {
            assert(w == filter_cancelled(v));
        } else {
            assert(w.selected_option == v.selected_option);
            assert(w.command_opts == v.command_opts);
        }
    }
}

/// The health report's tab stays one of its three tabs.
pub proof fn lemma_health_tab_in_range(v: AppView, code: Key, ctrl: bool)
    requires
        v.health_tab < 3,
    ensures
        key_step(v, code, ctrl).health_tab < 3,
{
}

/// In the idle phase with no overlay open, `?` opens the help and a second
/// `?` closes it, with everything else as it was.
pub proof fn lemma_help_round_trip(v: AppView, ctrl: bool)
    requires
        v.state == AppState::Idle,
        !v.show_help,
        !v.show_options,
        !v.filter_active,
    ensures
        key_step(v, Key::Char('?'), ctrl).show_help,
        key_step(key_step(v, Key::Char('?'), ctrl), Key::Char('?'), ctrl) == v,
{
}

/// Scrolling keeps the output position within the output.
pub proof fn lemma_scroll_stays_in_output(v: AppView, code: Key, ctrl: bool)
    requires
        v.output_scroll <= max_scroll(v),
    ensures
        key_step(v, code, ctrl).output_scroll <= max_scroll(key_step(v, code, ctrl)),
{
}

/// Events keep the output within [`MAX_SCROLLBACK`] lines and the scroll
/// position within the output.
pub proof fn lemma_events_bound_output(r: RunView, e: Event)
    requires
        r.log.len() <= MAX_SCROLLBACK,
        r.scroll as int <= (if r.log.len() >= 1 {
            r.log.len() - 1
        } else {
            0
        }),
    ensures
        event_step(r, e).log.len() <= MAX_SCROLLBACK,
        event_step(r, e).scroll as int <= (if event_step(r, e).log.len() >= 1 {
            event_step(r, e).log.len() - 1
        } else {
            0
        }),
{
}

} // verus!
