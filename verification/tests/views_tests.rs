use std::time::Duration;

use melos_rs::app::App;
use melos_rs::health::{
    ConstraintUsage, HealthReport, MissingFieldsIssue, SdkConsistencyResult, VersionDriftIssue,
};
use melos_rs::tui::{ActivePanel, AppState, CommandOpts, PackageRow};
use melos_rs::tui::CommandRow;
use melos_rs::views::{
    body, commands_panel, footer, header_line, health_panel, help_overlay, options_overlay, output_lines,
    output_title, packages_panel, results_summary, running_view, Body, Span, Tone,
};

/// The text of a line.
fn line_text(line: &[Span]) -> String {
    line.iter().map(|s| s.text.as_str()).collect()
}

/// The text of lines, one per line.
fn text(lines: &[Vec<Span>]) -> String {
    lines.iter().map(|l| line_text(l)).collect::<Vec<_>>().join("\n")
}

// ---------------------------------------------------------------------------
// Health
// ---------------------------------------------------------------------------

fn make_clean_report() -> HealthReport {
    HealthReport {
        version_drift: Some(vec![]),
        missing_fields: Some(vec![]),
        sdk_consistency: Some(SdkConsistencyResult::default()),
        total_issues: 0,
    }
}

fn app_with_health(report: HealthReport, tab: usize) -> App {
    let mut app = App::new();
    app.state = AppState::Done;
    app.running_command = Some("health".to_string());
    app.health_report = Some(report);
    app.health_tab = tab;
    app
}

fn health_text(app: &App) -> String {
    let panel = health_panel(&app.health_report, app.health_tab).expect("panel");
    format!("{}\n{}\n{}", line_text(&panel.tabs), panel.title, text(&panel.lines))
}

#[test]
fn test_health_no_report_renders_nothing() {
    let mut app = App::new();
    app.state = AppState::Done;
    assert!(health_panel(&app.health_report, app.health_tab).is_none());
}

#[test]
fn test_health_tab_bar_shows_labels() {
    let app = app_with_health(make_clean_report(), 0);
    let t = health_text(&app);
    assert!(t.contains("Version Drift"), "Expected tab label, got:\n{t}");
    assert!(t.contains("Missing Fields"), "Expected tab label, got:\n{t}");
    assert!(t.contains("SDK Consistency"), "Expected tab label, got:\n{t}");
}

#[test]
fn test_health_clean_version_drift() {
    let app = app_with_health(make_clean_report(), 0);
    let t = health_text(&app);
    assert!(t.contains("No version drift"), "Expected clean message, got:\n{t}");
}

#[test]
fn test_health_version_drift_with_issues() {
    let report = HealthReport {
        version_drift: Some(vec![VersionDriftIssue {
            dependency: "http".to_string(),
            constraints: vec![
                ConstraintUsage { constraint: "^0.13.0".to_string(), packages: vec!["pkg_a".to_string()] },
                ConstraintUsage { constraint: "^1.0.0".to_string(), packages: vec!["pkg_b".to_string()] },
            ],
        }]),
        missing_fields: None,
        sdk_consistency: None,
        total_issues: 1,
    };
    let app = app_with_health(report, 0);
    let t = health_text(&app);
    assert!(t.contains("http"), "Expected dependency name, got:\n{t}");
    assert!(t.contains("^0.13.0"), "Expected constraint, got:\n{t}");
    assert!(t.contains("pkg_a"), "Expected package name, got:\n{t}");
}

#[test]
fn test_health_clean_missing_fields() {
    let app = app_with_health(make_clean_report(), 1);
    let t = health_text(&app);
    assert!(t.contains("All packages have required fields"), "Expected clean message, got:\n{t}");
}

#[test]
fn test_health_missing_fields_with_issues() {
    let report = HealthReport {
        version_drift: None,
        missing_fields: Some(vec![MissingFieldsIssue {
            package: "my_pkg".to_string(),
            missing: vec!["description".to_string(), "homepage".to_string()],
        }]),
        sdk_consistency: None,
        total_issues: 1,
    };
    let app = app_with_health(report, 1);
    let t = health_text(&app);
    assert!(t.contains("my_pkg"), "Expected package name, got:\n{t}");
    assert!(t.contains("description"), "Expected missing field, got:\n{t}");
    assert!(t.contains("homepage"), "Expected missing field, got:\n{t}");
}

#[test]
fn test_health_clean_sdk_consistency() {
    let app = app_with_health(make_clean_report(), 2);
    let t = health_text(&app);
    assert!(t.contains("consistent"), "Expected clean message, got:\n{t}");
}

#[test]
fn test_health_sdk_missing_packages() {
    let report = HealthReport {
        version_drift: None,
        missing_fields: None,
        sdk_consistency: Some(SdkConsistencyResult {
            missing_sdk: vec!["orphan_pkg".to_string()],
            dart_sdk_drift: vec![],
            flutter_sdk_drift: vec![],
        }),
        total_issues: 1,
    };
    let app = app_with_health(report, 2);
    let t = health_text(&app);
    assert!(t.contains("orphan_pkg"), "Expected missing sdk package, got:\n{t}");
}

#[test]
fn test_health_sdk_dart_drift() {
    let report = HealthReport {
        version_drift: None,
        missing_fields: None,
        sdk_consistency: Some(SdkConsistencyResult {
            missing_sdk: vec![],
            dart_sdk_drift: vec![ConstraintUsage {
                constraint: ">=3.0.0 <4.0.0".to_string(),
                packages: vec!["pkg_x".to_string()],
            }],
            flutter_sdk_drift: vec![],
        }),
        total_issues: 1,
    };
    let app = app_with_health(report, 2);
    let t = health_text(&app);
    assert!(t.contains("Dart SDK"), "Expected Dart SDK drift section, got:\n{t}");
    assert!(t.contains(">=3.0.0"), "Expected constraint, got:\n{t}");
}

#[test]
fn test_health_disabled_check_shows_message() {
    let report = HealthReport { version_drift: None, missing_fields: None, sdk_consistency: None, total_issues: 0 };
    let app = app_with_health(report, 0);
    let t = health_text(&app);
    assert!(t.contains("not enabled"), "Expected disabled message, got:\n{t}");
}

#[test]
fn version_drift_lines_are_exact() {
    let report = HealthReport {
        version_drift: Some(vec![VersionDriftIssue {
            dependency: "http".to_string(),
            constraints: vec![ConstraintUsage {
                constraint: "^1.0.0".to_string(),
                packages: vec!["a".to_string(), "b".to_string()],
            }],
        }]),
        missing_fields: None,
        sdk_consistency: None,
        total_issues: 1,
    };
    let panel = health_panel(&Some(report), 0).unwrap();
    assert_eq!(
        text(&panel.lines),
        "1 dependencies with version drift:\n\n  http (1 constraints):\n    ^1.0.0  used by: a, b\n"
    );
    assert_eq!(panel.title, " Version Drift ");
    assert_eq!(panel.tabs[0].tone, Tone::Accent);
    assert_eq!(panel.tabs[2].tone, Tone::Muted);
}

#[test]
fn sdk_consistency_lines_are_exact() {
    let report = HealthReport {
        version_drift: None,
        missing_fields: None,
        sdk_consistency: Some(SdkConsistencyResult {
            missing_sdk: vec!["orphan".to_string()],
            dart_sdk_drift: vec![],
            flutter_sdk_drift: vec![ConstraintUsage {
                constraint: ">=3.10.0".to_string(),
                packages: vec!["app".to_string()],
            }],
        }),
        total_issues: 2,
    };
    let panel = health_panel(&Some(report), 2).unwrap();
    assert_eq!(
        text(&panel.lines),
        "1 packages missing SDK constraint:\n  orphan\n\nFlutter SDK constraint drift:\n  >=3.10.0  used by: app"
    );
}

// ---------------------------------------------------------------------------
// Options overlay
// ---------------------------------------------------------------------------

fn app_with_options(command_name: &str) -> App {
    let mut app = App::new();
    app.active_panel = ActivePanel::Commands;
    if let Some(idx) = app.command_rows.iter().position(|c| c.name == command_name) {
        app.selected_command = idx;
    }
    app.command_opts = CommandOpts::build_default(command_name);
    app.show_options = true;
    app.selected_option = 0;
    app
}

fn overlay_text(app: &App) -> String {
    match options_overlay(&app.command_opts, &app.command_rows, app.selected_command, app.selected_option, 80, 30) {
        Some(o) => format!("{}\n{}", o.title, text(&o.lines)),
        None => String::new(),
    }
}

#[test]
fn test_options_overlay_shows_command_name() {
    let app = app_with_options("analyze");
    let t = overlay_text(&app);
    assert!(t.contains("analyze options"), "Expected 'analyze options' in overlay, got: {t}");
}

#[test]
fn test_options_overlay_shows_bool_options() {
    let app = app_with_options("analyze");
    let t = overlay_text(&app);
    assert!(t.contains("fatal-warnings"), "Expected 'fatal-warnings' option");
    assert!(t.contains("fatal-infos"), "Expected 'fatal-infos' option");
    assert!(t.contains("no-fatal"), "Expected 'no-fatal' option");
}

#[test]
fn test_options_overlay_shows_number_options() {
    let app = app_with_options("analyze");
    let t = overlay_text(&app);
    assert!(t.contains("concurrency"), "Expected 'concurrency' option");
}

#[test]
fn test_options_overlay_shows_run_button() {
    let app = app_with_options("analyze");
    let t = overlay_text(&app);
    assert!(t.contains("Run"), "Expected 'Run' button in overlay");
}

#[test]
fn test_options_overlay_no_render_without_opts() {
    let mut app = App::new();
    app.command_opts = None;
    app.show_options = true;
    let t = overlay_text(&app);
    assert!(!t.contains("options"), "Should not render overlay without command_opts");
}

#[test]
fn test_options_overlay_hint_line() {
    let app = app_with_options("clean");
    let t = overlay_text(&app);
    assert!(t.contains("space:toggle"), "Expected hint line with keybindings");
}

#[test]
fn options_overlay_lines_and_size_are_exact() {
    let opts = Some(CommandOpts::Format { concurrency: 2, set_exit_if_changed: true, line_length: None });
    let o = options_overlay(&opts, &vec![], 0, 0, 40, 6).unwrap();
    assert_eq!(o.title, " command options ");
    assert_eq!(o.width, 40);
    assert_eq!(o.height, 6);
    assert_eq!(
        text(&o.lines),
        ">> concurrency: 2  -/+\n   [x] set-exit-if-changed\n   line-length: default\n\n   [ Run ]\n   space:toggle  -/+:adjust  enter:run  esc:cancel"
    );
    let big = options_overlay(&opts, &vec![], 0, 3, 80, 30).unwrap();
    assert_eq!(big.height, 8);
    assert_eq!(big.width, 44);
    assert_eq!(line_text(&big.lines[4]), ">> [ Run ]");
}

// ---------------------------------------------------------------------------
// Package table
// ---------------------------------------------------------------------------

fn row(name: &str, version: &str, sdk: &'static str, path: &str, is_private: bool) -> PackageRow {
    PackageRow {
        name: name.to_string(),
        version: version.to_string(),
        sdk,
        path: path.to_string(),
        is_private,
    }
}

fn make_app_with_rows(rows: Vec<PackageRow>) -> App {
    let mut app = App::new();
    app.workspace_name = Some("test".to_string());
    app.package_rows = rows;
    app
}

#[test]
fn test_table_shows_package_count_in_title() {
    let app = make_app_with_rows(vec![
        row("app", "1.0.0", "Flutter", "packages/app", false),
        row("core", "0.5.0", "Dart", "packages/core", false),
    ]);
    let p = packages_panel(&app, true);
    assert!(p.title.contains("Packages (2)"), "Expected 'Packages (2)' in title, got: {}", p.title);
}

#[test]
fn test_table_shows_column_headers() {
    let app = make_app_with_rows(vec![row("test_pkg", "1.0.0", "Dart", "packages/test_pkg", false)]);
    let p = packages_panel(&app, true);
    let header = p.header.join(" ");
    assert!(header.contains("Name"), "Expected 'Name' in header, got: {header}");
    assert!(header.contains("Version"), "Expected 'Version' in header, got: {header}");
    assert!(header.contains("SDK"), "Expected 'SDK' in header, got: {header}");
    assert!(header.contains("Path"), "Expected 'Path' in header, got: {header}");
}

#[test]
fn test_table_shows_private_suffix() {
    let app = make_app_with_rows(vec![row("internal", "0.1.0", "Dart", "packages/internal", true)]);
    let p = packages_panel(&app, true);
    assert!(p.rows[0].name.contains("(private)"), "Expected '(private)' suffix, got: {}", p.rows[0].name);
}

#[test]
fn test_private_suffix_aligned_to_longest_name() {
    let app = make_app_with_rows(vec![
        row("app", "1.0.0", "Dart", "packages/app", true),
        row("long_package_name", "2.0.0", "Dart", "packages/long", true),
    ]);
    let p = packages_panel(&app, true);
    let col1 = p.rows[0].name.find("(private)").expect("row1 should contain (private)");
    let col2 = p.rows[1].name.find("(private)").expect("row2 should contain (private)");
    assert_eq!(col1, col2, "Expected (private) aligned at same column, got col {col1} vs {col2}");
    assert_eq!(p.rows[0].name, format!("{:<18}(private)", "app"));
}

#[test]
fn test_no_workspace_shows_error_message() {
    let app = App::new();
    let p = packages_panel(&app, true);
    let all = text(&p.message);
    assert!(all.contains("No workspace found"), "Expected 'No workspace found' message, got: {all}");
    assert!(all.contains("melos-rs init"), "Expected init suggestion, got: {all}");
    assert_eq!(p.border, Tone::Error);
}

#[test]
fn test_empty_workspace_shows_no_packages() {
    let mut app = App::new();
    app.workspace_name = Some("test".to_string());
    let p = packages_panel(&app, true);
    let all = format!("{}\n{}", p.title, text(&p.message));
    assert!(all.contains("No packages found"), "Expected 'No packages found' message, got: {all}");
    assert!(all.contains("Packages (0)"), "Expected 'Packages (0)' in title, got: {all}");
}

#[test]
fn test_table_shows_package_data() {
    let app = make_app_with_rows(vec![row("my_app", "2.0.0", "Flutter", "packages/my_app", false)]);
    let p = packages_panel(&app, true);
    let r = &p.rows[0];
    assert_eq!(r.name, "my_app");
    assert_eq!(r.version, "2.0.0");
    assert_eq!(r.sdk, "Flutter");
    assert_eq!(r.sdk_tone, Tone::Accent);
    assert_eq!(p.selected, Some(0));
}

#[test]
fn test_filtered_title_shows_visible_of_total() {
    let mut app = make_app_with_rows(vec![
        row("alpha", "1.0.0", "Dart", "packages/alpha", false),
        row("beta", "1.0.0", "Dart", "packages/beta", false),
        row("gamma", "1.0.0", "Dart", "packages/gamma", false),
    ]);
    app.filter_text = "a".to_string();
    app.filtered_indices = vec![0, 2];
    let p = packages_panel(&app, false);
    assert!(p.title.contains("Packages (2/3)"), "Expected 'Packages (2/3)' in title, got: {}", p.title);
    assert_eq!(p.rows.len(), 2);
    assert_eq!(p.rows[1].name, "gamma");
    assert_eq!(p.border, Tone::Muted);
}

#[test]
fn test_empty_filter_result_shows_message() {
    let mut app = make_app_with_rows(vec![row("alpha", "1.0.0", "Dart", "packages/alpha", false)]);
    app.filter_text = "xyz".to_string();
    app.filtered_indices = vec![];
    let p = packages_panel(&app, true);
    let all = format!("{}\n{}", p.title, text(&p.message));
    assert!(all.contains("No packages match \"xyz\""), "Expected 'No packages match' message, got: {all}");
    assert!(all.contains("Packages (0/1)"), "Expected 'Packages (0/1)' in title, got: {all}");
}

// ---------------------------------------------------------------------------
// Results
// ---------------------------------------------------------------------------

/// How long a package took, as the results list shows it.
fn duration_text(d: Duration) -> String {
    let ms = d.as_millis();
    if ms >= 1000 {
        format!("{:.1}s", d.as_secs_f64())
    } else {
        format!("{ms}ms")
    }
}

fn summary(app: &App) -> Vec<Vec<Span>> {
    let finished: Vec<(String, bool, String)> =
        app.finished_packages.iter().map(|(n, ok, d)| (n.clone(), *ok, duration_text(*d))).collect();
    results_summary(app.running_command.as_deref(), app.command_error.as_deref(), &finished)
}

fn results_text(app: &App, height: usize) -> String {
    let s = summary(app);
    let visible = height.saturating_sub(s.len()).saturating_sub(1);
    let title = output_title(app.output_log.len(), app.output_scroll, visible);
    let out = output_lines(&app.output_log, app.output_scroll, visible);
    format!("{}\n{}\n{}", text(&s), title, text(&out))
}

#[test]
fn test_results_shows_summary() {
    let mut app = App::new();
    app.state = AppState::Done;
    app.running_command = Some("analyze".to_string());
    app.finished_packages = vec![
        ("pkg_a".to_string(), true, Duration::from_millis(100)),
        ("pkg_b".to_string(), false, Duration::from_millis(200)),
    ];
    let t = results_text(&app, 20);
    assert!(t.contains("1 passed, 1 failed"), "Expected summary, got:\n{t}");
    assert!(t.contains("analyze"), "Expected command name, got:\n{t}");
}

#[test]
fn test_results_shows_per_package_list() {
    let mut app = App::new();
    app.state = AppState::Done;
    app.running_command = Some("test".to_string());
    app.finished_packages = vec![
        ("pkg_a".to_string(), true, Duration::from_millis(120)),
        ("pkg_b".to_string(), false, Duration::from_secs(2)),
    ];
    let t = results_text(&app, 20);
    assert!(t.contains("pkg_a") && t.contains("120ms"), "Expected pkg_a with duration, got:\n{t}");
    assert!(t.contains("pkg_b") && t.contains("2.0s"), "Expected pkg_b with duration, got:\n{t}");
}

#[test]
fn test_results_shows_output_log() {
    let mut app = App::new();
    app.state = AppState::Done;
    app.running_command = Some("analyze".to_string());
    app.finished_packages = vec![("pkg_a".to_string(), true, Duration::from_millis(100))];
    app.output_log = vec![("pkg_a".to_string(), "All checks passed".to_string(), false)];
    let t = results_text(&app, 20);
    assert!(t.contains("[pkg_a]"), "Expected pkg_a prefix, got:\n{t}");
    assert!(t.contains("All checks passed"), "Expected output text, got:\n{t}");
}

#[test]
fn test_results_shows_error_message() {
    let mut app = App::new();
    app.state = AppState::Done;
    app.command_error = Some("connection failed".to_string());
    let t = results_text(&app, 20);
    assert!(t.contains("Error: connection failed"), "Expected error message, got:\n{t}");
}

#[test]
fn test_results_scroll_indicator_when_content_overflows() {
    let mut app = App::new();
    app.state = AppState::Done;
    app.running_command = Some("test".to_string());
    app.finished_packages = vec![("pkg_a".to_string(), true, Duration::from_millis(50))];
    for i in 0..30 {
        app.output_log.push(("pkg_a".to_string(), format!("line {i}"), false));
    }
    let t = results_text(&app, 10);
    assert!(t.contains("of 30"), "Expected scroll indicator with total 30, got:\n{t}");
}

#[test]
fn test_results_shows_command_name_from_running_command() {
    let mut app = App::new();
    app.state = AppState::Done;
    app.running_command = Some("format".to_string());
    app.finished_packages = vec![("pkg_a".to_string(), true, Duration::from_millis(50))];
    let t = results_text(&app, 20);
    assert!(t.contains("format"), "Expected command name 'format', got:\n{t}");
}

#[test]
fn test_results_empty_packages_shows_zero_counts() {
    let mut app = App::new();
    app.state = AppState::Done;
    app.running_command = Some("bootstrap".to_string());
    let t = results_text(&app, 20);
    assert!(t.contains("0 passed, 0 failed"), "Expected zero counts, got:\n{t}");
}

#[test]
fn results_summary_is_exact() {
    let finished = vec![("a".to_string(), true, "5ms".to_string()), ("b".to_string(), false, "1.5s".to_string())];
    let lines = results_summary(None, Some("boom"), &finished);
    assert_eq!(text(&lines), "command: 1 passed, 1 failed\nError: boom\n\n + a  (5ms)\n x b  (1.5s)\n");
    assert_eq!(lines[0][0].tone, Tone::Red);
    let ok = results_summary(Some("test"), None, &vec![("a".to_string(), true, "5ms".to_string())]);
    assert_eq!(ok[0][0].tone, Tone::Green);
}

#[test]
fn output_window_and_colours() {
    let log = vec![
        ("b".to_string(), "one".to_string(), false),
        ("a".to_string(), "two".to_string(), true),
        ("b".to_string(), "three".to_string(), false),
        ("c".to_string(), "four".to_string(), false),
    ];
    let all = output_lines(&log, 0, 10);
    assert_eq!(text(&all), "[b] one\n[a] two\n[b] three\n[c] four");
    assert_eq!(all[0][0].tone, Tone::Palette(0));
    assert_eq!(all[1][0].tone, Tone::Palette(1));
    assert_eq!(all[2][0].tone, Tone::Palette(0));
    assert_eq!(all[3][0].tone, Tone::Palette(2));
    assert_eq!(all[1][1].tone, Tone::Red);
    let window = output_lines(&log, 1, 2);
    assert_eq!(text(&window), "[a] two\n[b] three");
    assert!(output_lines(&log, 9, 2).is_empty());
    assert_eq!(output_title(30, 0, 5), " Output (1-5 of 30) ");
    assert_eq!(output_title(30, 28, 5), " Output (29-30 of 30) ");
    assert_eq!(output_title(3, 0, 5), " Output (3 lines) ");
}

// ---------------------------------------------------------------------------
// Header, footer and body
// ---------------------------------------------------------------------------

fn header_text(app: &App) -> String {
    let (l, tag) = header_line(app, "0.1.0");
    format!("{}{}", line_text(&l), tag)
}

fn footer_text(app: &App) -> String {
    let (l, label) = footer(app, 100);
    format!("{}{}", line_text(&l), label.unwrap_or_default())
}

#[test]
fn test_header_contains_melos_tui() {
    let app = App::new();
    assert!(header_text(&app).contains("melos-tui"));
}

#[test]
fn test_header_shows_no_workspace_when_unloaded() {
    let app = App::new();
    assert!(header_text(&app).contains("no workspace loaded"));
}

#[test]
fn test_header_shows_workspace_info_when_loaded() {
    let mut app = App::new();
    app.workspace_name = Some("my_workspace".to_string());
    app.config_source_label = Some("melos.yaml".to_string());
    app.package_rows = vec![
        row("a", "1.0.0", "Dart", "packages/a", false),
        row("b", "2.0.0", "Flutter", "packages/b", false),
    ];
    let h = header_text(&app);
    assert!(h.contains("my_workspace"), "Expected workspace name, got: {h}");
    assert!(h.contains("melos.yaml"), "Expected config source, got: {h}");
    assert!(h.contains("2 packages"), "Expected package count, got: {h}");
    let (l, _) = header_line(&app, "0.1.0");
    assert_eq!(line_text(&l), " melos-tui | my_workspace (melos.yaml, 2 packages)");
}

#[test]
fn test_header_shows_version_at_right() {
    let app = App::new();
    let (_, tag) = header_line(&app, "0.1.0");
    let expected = "v0.1.0";
    assert!(tag.contains(expected), "Expected '{expected}' in header, got: {tag}");
    assert!(tag.trim_end().ends_with(expected), "Expected version at right edge, got: {tag}");
}

#[test]
fn test_footer_shows_navigation_keys_in_idle() {
    let app = App::new();
    let f = footer_text(&app);
    assert!(f.contains("q:quit"));
    assert!(f.contains("j/k:navigate"));
    assert!(f.contains("?:help"));
}

#[test]
fn test_footer_shows_esc_in_running() {
    let mut app = App::new();
    app.state = AppState::Running;
    let f = footer_text(&app);
    assert!(f.contains("esc:cancel"));
    assert!(footer(&app, 100).1.is_none());
}

#[test]
fn test_body_shows_both_panels_in_idle() {
    let mut app = App::new();
    app.package_rows = vec![row("test_pkg", "1.0.0", "Dart", "packages/test_pkg", false)];
    assert_eq!(body(&app), Body::Panels { packages_focused: true });
    let p = packages_panel(&app, true);
    let c = commands_panel(&app, false);
    assert!(p.title.contains("Packages"), "Expected 'Packages' panel in body");
    assert!(c.title.contains("Commands"), "Expected 'Commands' panel in body");
}

#[test]
fn test_help_overlay_renders_when_show_help_true() {
    let (title, nav, _) = help_overlay();
    assert!(title.contains("Help"), "Expected 'Help' overlay title when show_help is true");
    assert!(text(&nav).contains("Navigation"), "Expected 'Navigation' section in help overlay");
}

#[test]
fn test_footer_shows_filter_hint_in_idle() {
    let app = App::new();
    let f = footer_text(&app);
    assert!(f.contains("/:filter"), "Expected '/:filter' in Idle footer, got: {f}");
}

#[test]
fn test_footer_shows_filter_input_bar_when_active() {
    let mut app = App::new();
    app.filter_active = true;
    app.filter_text = "abc".to_string();
    let f = footer_text(&app);
    assert!(f.contains("/abc"), "Expected '/abc' filter prompt, got: {f}");
}

#[test]
fn test_footer_shows_filter_indicator_when_applied() {
    let mut app = App::new();
    app.filter_text = "test".to_string();
    app.filtered_indices = vec![0];
    let f = footer_text(&app);
    assert!(f.contains("filter: test"), "Expected 'filter: test' indicator, got: {f}");
    assert!(f.contains("/:edit"), "Expected '/:edit' hint, got: {f}");
    assert!(f.contains("esc:clear"), "Expected 'esc:clear' hint, got: {f}");
}

#[test]
fn footer_theme_label_needs_room() {
    let app = App::new();
    assert_eq!(footer(&app, 100).1, Some(" dark ".to_string()));
    assert_eq!(footer(&app, 6).1, None);
    assert_eq!(footer(&app, 7).1, Some(" dark ".to_string()));
}

#[test]
fn body_follows_the_state() {
    let mut app = App::new();
    app.active_panel = ActivePanel::Commands;
    assert_eq!(body(&app), Body::Panels { packages_focused: false });
    app.state = AppState::Running;
    assert_eq!(body(&app), Body::Running);
    app.state = AppState::Done;
    assert_eq!(body(&app), Body::Results);
    app.health_report = Some(make_clean_report());
    assert_eq!(body(&app), Body::Health);
}

// ---------------------------------------------------------------------------
// Command table
// ---------------------------------------------------------------------------

#[test]
fn test_command_table_shows_count_in_title() {
    let app = App::new();
    let c = commands_panel(&app, true);
    let expected = format!("Commands ({})", app.command_count());
    assert!(c.title.contains(&expected), "Expected '{expected}' in title, got: {}", c.title);
    assert_eq!(c.border, Tone::Accent);
}

#[test]
fn test_command_table_shows_column_headers() {
    let app = App::new();
    let c = commands_panel(&app, true);
    let header = c.header.join(" ");
    assert!(header.contains("Command"), "Expected 'Command' in header, got: {header}");
    assert!(header.contains("Description"), "Expected 'Description' in header, got: {header}");
}

#[test]
fn test_command_table_shows_builtin_names() {
    let app = App::new();
    let c = commands_panel(&app, true);
    assert!(c.rows[0].name.contains("analyze"), "Expected 'analyze' in first row, got: {}", c.rows[0].name);
    assert!(c.rows[0].builtin);
}

#[test]
fn test_command_table_shows_script_with_description() {
    let mut app = App::new();
    app.command_rows.push(CommandRow {
        name: "custom_script".to_string(),
        description: Some("runs custom logic".to_string()),
        is_builtin: false,
        is_supported: false,
    });
    let c = commands_panel(&app, false);
    let last = c.rows.last().unwrap();
    assert!(last.name.contains("custom_script"), "Expected script name, got: {}", last.name);
    assert!(last.description.contains("runs custom logic"), "Expected description, got: {}", last.description);
    assert!(!last.builtin);
    assert_eq!(c.border, Tone::DarkGray);
}

#[test]
fn test_command_table_empty_shows_zero_count() {
    let mut app = App::new();
    app.command_rows.clear();
    let c = commands_panel(&app, true);
    assert!(c.title.contains("Commands (0)"), "Expected 'Commands (0)' in title, got: {}", c.title);
}

// ---------------------------------------------------------------------------
// Running view
// ---------------------------------------------------------------------------

#[test]
fn test_running_shows_progress_gauge() {
    let mut app = App::new();
    app.state = AppState::Running;
    app.running_command = Some("analyze".to_string());
    app.progress = Some((3, 10, "analyze".to_string()));
    app.running_packages = vec!["pkg_a".to_string()];
    let v = running_view(&app, None, 10);
    let t = format!("{}
{}", v.title, v.progress_label);
    assert!(t.contains("Running") && t.contains("analyze"), "Expected title with command name, got:\n{t}");
    assert!(t.contains("3/10"), "Expected progress text, got:\n{t}");
    assert!(t.contains("pkg_a"), "Expected running package name, got:\n{t}");
    assert_eq!(v.progress_label, "3/10  (pkg_a)");
    assert_eq!((v.completed, v.total), (3, 10));
}

#[test]
fn test_running_shows_output_lines() {
    let mut app = App::new();
    app.state = AppState::Running;
    app.running_command = Some("analyze".to_string());
    app.output_log = vec![
        ("pkg_a".to_string(), "Analyzing...".to_string(), false),
        ("pkg_b".to_string(), "No issues found!".to_string(), false),
    ];
    let v = running_view(&app, None, 10);
    let t = text(&v.lines);
    assert!(t.contains("[pkg_a]"), "Expected pkg_a prefix, got:\n{t}");
    assert!(t.contains("Analyzing..."), "Expected output text, got:\n{t}");
    assert!(t.contains("[pkg_b]"), "Expected pkg_b prefix, got:\n{t}");
}

#[test]
fn test_color_map_assigns_unique_colors() {
    let log = vec![
        ("pkg_a".to_string(), "x".to_string(), false),
        ("pkg_b".to_string(), "y".to_string(), false),
        ("pkg_a".to_string(), "z".to_string(), false),
    ];
    let lines = output_lines(&log, 0, 10);
    assert_ne!(lines[0][0].tone, lines[1][0].tone);
    assert_eq!(lines[0][0].tone, lines[2][0].tone);
}

#[test]
fn test_color_map_wraps_after_palette_exhausted() {
    let log: Vec<(String, String, bool)> =
        (0..15).map(|i| (format!("pkg_{i}"), "line".to_string(), false)).collect();
    let lines = output_lines(&log, 0, 20);
    assert_eq!(lines.len(), 15);
    assert_eq!(lines[0][0].tone, lines[10][0].tone);
    assert_ne!(lines[0][0].tone, lines[1][0].tone);
}

#[test]
fn test_running_shows_elapsed_time() {
    let mut app = App::new();
    app.state = AppState::Running;
    app.running_command = Some("analyze".to_string());
    let v = running_view(&app, Some(65), 10);
    assert!(v.title.contains("1:0"), "Expected elapsed time in title, got: {}", v.title);
    assert_eq!(v.title, " Running: analyze  1:05 ");
}

#[test]
fn test_running_auto_scroll_shows_tail() {
    let mut app = App::new();
    app.state = AppState::Running;
    app.running_command = Some("test".to_string());
    app.auto_scroll = true;
    for i in 0..50 {
        app.output_log.push(("pkg_a".to_string(), format!("line {i}"), false));
    }
    let v = running_view(&app, None, 10);
    let t = text(&v.lines);
    assert!(t.contains("line 49"), "Expected last line visible with auto-scroll, got:\n{t}");
    assert_eq!(v.scroll, 40);
}

#[test]
fn test_running_manual_scroll_shows_offset() {
    let mut app = App::new();
    app.state = AppState::Running;
    app.running_command = Some("test".to_string());
    app.auto_scroll = false;
    app.output_scroll = 0;
    for i in 0..50 {
        app.output_log.push(("pkg_a".to_string(), format!("line {i}"), false));
    }
    let v = running_view(&app, None, 10);
    let t = text(&v.lines);
    assert!(t.contains("line 0"), "Expected first line visible with manual scroll, got:\n{t}");
    assert!(!t.contains("line 49"));
}

// ---------------------------------------------------------------------------
// Help overlay
// ---------------------------------------------------------------------------

#[test]
fn test_help_overlay_shows_title() {
    let (title, _, _) = help_overlay();
    assert!(title.contains("Help"), "Expected 'Help' in overlay");
}

#[test]
fn test_help_overlay_shows_navigation_header() {
    let (_, nav, _) = help_overlay();
    assert!(text(&nav).contains("Navigation"), "Expected 'Navigation' header");
}

#[test]
fn test_help_overlay_shows_commands_header() {
    let (_, _, cmds) = help_overlay();
    assert!(text(&cmds).contains("Commands"), "Expected 'Commands' header");
}

#[test]
fn test_help_overlay_shows_nav_keys() {
    let (_, nav, _) = help_overlay();
    let t = text(&nav);
    assert!(t.contains("j / Down"), "Expected 'j / Down' key");
    assert!(t.contains("Move down"), "Expected 'Move down' desc");
    assert_eq!(line_text(&nav[2]), " j / Down        Move down");
}

#[test]
fn test_help_overlay_shows_melos_commands() {
    let (_, _, cmds) = help_overlay();
    let t = text(&cmds);
    assert!(t.contains("analyze"), "Expected 'analyze' command");
    assert!(t.contains("bootstrap"), "Expected 'bootstrap' command");
    assert!(t.contains("version"), "Expected 'version' command");
    assert_eq!(cmds.len(), 14);
}
