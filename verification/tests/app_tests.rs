use std::time::Duration;

use melos_rs::app::{App, Key, MAX_SCROLLBACK, THEME_NAMES};
use melos_rs::events::Event;
use melos_rs::health::{HealthReport, SdkConsistencyResult};
use melos_rs::tui::{
    ActivePanel, AppState, CommandOpts, CommandRow, PackageRow, BUILTIN_COMMANDS, SUPPORTED_COMMANDS,
};

/// Presses a key without modifiers.
fn press(app: &mut App, code: Key) {
    app.handle_key(code, false);
}

/// Presses a key with Control held.
fn ctrl(app: &mut App, code: Key) {
    app.handle_key(code, true);
}

/// Helper: create an App with N fake package rows.
fn app_with_packages(count: usize) -> App {
    let mut app = App::new();
    for i in 0..count {
        app.package_rows.push(PackageRow {
            name: format!("pkg_{i}"),
            version: "1.0.0".to_string(),
            sdk: "Dart",
            path: format!("packages/pkg_{i}"),
            is_private: false,
        });
    }
    app
}

/// Helper: create an App with N fake command rows (replacing defaults).
fn app_with_commands(count: usize) -> App {
    let mut app = App::new();
    app.command_rows = (0..count)
        .map(|i| CommandRow {
            name: format!("cmd_{i}"),
            description: None,
            is_builtin: i < 3,
            is_supported: true,
        })
        .collect();
    app.active_panel = ActivePanel::Commands;
    app
}

#[test]
fn test_new_app_is_idle() {
    let app = App::new();
    assert_eq!(app.state, AppState::Idle);
    assert!(!app.should_quit());
    assert_eq!(app.active_panel, ActivePanel::Packages);
}

#[test]
fn test_new_app_has_builtin_commands() {
    let app = App::new();
    assert_eq!(app.command_rows.len(), BUILTIN_COMMANDS.len());
    assert!(app.command_rows.iter().all(|r| r.is_builtin));
    assert_eq!(app.command_rows[0].name, "analyze");
}

#[test]
fn test_q_quits() {
    let mut app = App::new();
    press(&mut app, Key::Char('q'));
    assert!(app.should_quit());
}

#[test]
fn test_esc_in_idle_quits() {
    let mut app = App::new();
    press(&mut app, Key::Esc);
    assert!(app.should_quit());
}

#[test]
fn test_esc_in_done_returns_to_idle() {
    let mut app = App::new();
    app.state = AppState::Done;
    press(&mut app, Key::Esc);
    assert_eq!(app.state, AppState::Idle);
    assert!(!app.should_quit());
}

#[test]
fn test_enter_in_done_returns_to_idle() {
    let mut app = App::new();
    app.state = AppState::Done;
    press(&mut app, Key::Enter);
    assert_eq!(app.state, AppState::Idle);
    assert!(!app.should_quit());
}

#[test]
fn test_q_in_done_returns_to_idle() {
    let mut app = App::new();
    app.state = AppState::Done;
    press(&mut app, Key::Char('q'));
    assert_eq!(app.state, AppState::Idle);
    assert!(!app.should_quit());
}

#[test]
fn test_esc_in_running_requests_cancel() {
    let mut app = App::new();
    app.state = AppState::Running;
    press(&mut app, Key::Esc);
    // Running state sets pending_cancel; main loop handles actual cancellation.
    assert!(app.pending_cancel);
    assert_eq!(app.state, AppState::Running);
}

#[test]
fn test_unknown_key_does_nothing() {
    let mut app = App::new();
    press(&mut app, Key::Char('x'));
    assert_eq!(app.state, AppState::Idle);
    assert!(!app.should_quit());
}

#[test]
fn test_tab_toggles_to_commands() {
    let mut app = App::new();
    assert_eq!(app.active_panel, ActivePanel::Packages);
    press(&mut app, Key::Tab);
    assert_eq!(app.active_panel, ActivePanel::Commands);
}

#[test]
fn test_tab_toggles_back_to_packages() {
    let mut app = App::new();
    press(&mut app, Key::Tab);
    press(&mut app, Key::Tab);
    assert_eq!(app.active_panel, ActivePanel::Packages);
}

#[test]
fn test_backtab_toggles_panel() {
    let mut app = App::new();
    press(&mut app, Key::BackTab);
    assert_eq!(app.active_panel, ActivePanel::Commands);
}

#[test]
fn test_selection_state_independent_per_panel() {
    let mut app = app_with_packages(10);
    // Move package selection to 5.
    for _ in 0..5 {
        press(&mut app, Key::Down);
    }
    assert_eq!(app.selected_package, 5);
    assert_eq!(app.selected_command, 0);

    // Switch to commands, move down 2.
    press(&mut app, Key::Tab);
    press(&mut app, Key::Down);
    press(&mut app, Key::Down);
    assert_eq!(app.selected_command, 2);

    // Package selection unchanged.
    assert_eq!(app.selected_package, 5);
}

#[test]
fn test_pkg_down_wraps_to_first() {
    let mut app = app_with_packages(3);
    app.selected_package = 2;
    press(&mut app, Key::Down);
    assert_eq!(app.selected_package, 0);
}

#[test]
fn test_pkg_up_wraps_to_last() {
    let mut app = app_with_packages(3);
    app.selected_package = 0;
    press(&mut app, Key::Up);
    assert_eq!(app.selected_package, 2);
}

#[test]
fn test_pkg_down_increments() {
    let mut app = app_with_packages(5);
    press(&mut app, Key::Down);
    assert_eq!(app.selected_package, 1);
    press(&mut app, Key::Down);
    assert_eq!(app.selected_package, 2);
}

#[test]
fn test_pkg_up_decrements() {
    let mut app = app_with_packages(5);
    app.selected_package = 3;
    press(&mut app, Key::Up);
    assert_eq!(app.selected_package, 2);
}

#[test]
fn test_pkg_home_jumps_to_first() {
    let mut app = app_with_packages(10);
    app.selected_package = 7;
    press(&mut app, Key::Home);
    assert_eq!(app.selected_package, 0);
}

#[test]
fn test_pkg_end_jumps_to_last() {
    let mut app = app_with_packages(10);
    press(&mut app, Key::End);
    assert_eq!(app.selected_package, 9);
}

#[test]
fn test_pkg_page_down_moves_by_page_size() {
    let mut app = app_with_packages(50);
    app.page_size = 10;
    press(&mut app, Key::PageDown);
    assert_eq!(app.selected_package, 10);
    press(&mut app, Key::PageDown);
    assert_eq!(app.selected_package, 20);
}

#[test]
fn test_pkg_page_down_clamps_to_last() {
    let mut app = app_with_packages(5);
    app.page_size = 10;
    press(&mut app, Key::PageDown);
    assert_eq!(app.selected_package, 4);
}

#[test]
fn test_pkg_page_up_moves_by_page_size() {
    let mut app = app_with_packages(50);
    app.page_size = 10;
    app.selected_package = 30;
    press(&mut app, Key::PageUp);
    assert_eq!(app.selected_package, 20);
}

#[test]
fn test_pkg_page_up_clamps_to_first() {
    let mut app = app_with_packages(50);
    app.page_size = 10;
    app.selected_package = 3;
    press(&mut app, Key::PageUp);
    assert_eq!(app.selected_package, 0);
}

#[test]
fn test_pkg_navigation_on_empty() {
    let mut app = App::new();
    press(&mut app, Key::Up);
    press(&mut app, Key::Down);
    press(&mut app, Key::Home);
    press(&mut app, Key::End);
    press(&mut app, Key::PageUp);
    press(&mut app, Key::PageDown);
    assert_eq!(app.selected_package, 0);
}

#[test]
fn test_package_count() {
    let app = app_with_packages(7);
    assert_eq!(app.package_count(), 7);
}

#[test]
fn test_j_moves_down() {
    let mut app = app_with_packages(5);
    press(&mut app, Key::Char('j'));
    assert_eq!(app.selected_package, 1);
}

#[test]
fn test_k_moves_up() {
    let mut app = app_with_packages(5);
    app.selected_package = 3;
    press(&mut app, Key::Char('k'));
    assert_eq!(app.selected_package, 2);
}

#[test]
fn test_g_jumps_to_first() {
    let mut app = app_with_packages(10);
    app.selected_package = 7;
    press(&mut app, Key::Char('g'));
    assert_eq!(app.selected_package, 0);
}

#[test]
fn test_shift_g_jumps_to_last() {
    let mut app = app_with_packages(10);
    press(&mut app, Key::Char('G'));
    assert_eq!(app.selected_package, 9);
}

#[test]
fn test_f_pages_down() {
    let mut app = app_with_packages(50);
    app.page_size = 10;
    press(&mut app, Key::Char('f'));
    assert_eq!(app.selected_package, 10);
}

#[test]
fn test_b_pages_up() {
    let mut app = app_with_packages(50);
    app.page_size = 10;
    app.selected_package = 20;
    press(&mut app, Key::Char('b'));
    assert_eq!(app.selected_package, 10);
}

#[test]
fn test_cmd_down_wraps_to_first() {
    let mut app = app_with_commands(3);
    app.selected_command = 2;
    press(&mut app, Key::Down);
    assert_eq!(app.selected_command, 0);
}

#[test]
fn test_cmd_up_wraps_to_last() {
    let mut app = app_with_commands(3);
    app.selected_command = 0;
    press(&mut app, Key::Up);
    assert_eq!(app.selected_command, 2);
}

#[test]
fn test_cmd_home_end() {
    let mut app = app_with_commands(10);
    app.selected_command = 5;
    press(&mut app, Key::Home);
    assert_eq!(app.selected_command, 0);
    press(&mut app, Key::End);
    assert_eq!(app.selected_command, 9);
}

#[test]
fn test_cmd_page_navigation() {
    let mut app = app_with_commands(30);
    app.page_size = 10;
    press(&mut app, Key::PageDown);
    assert_eq!(app.selected_command, 10);
    press(&mut app, Key::PageUp);
    assert_eq!(app.selected_command, 0);
}

#[test]
fn test_cmd_navigation_on_empty() {
    let mut app = App::new();
    app.command_rows.clear();
    app.active_panel = ActivePanel::Commands;
    press(&mut app, Key::Up);
    press(&mut app, Key::Down);
    assert_eq!(app.selected_command, 0);
}

#[test]
fn test_command_count() {
    let app = App::new();
    assert_eq!(app.command_count(), BUILTIN_COMMANDS.len());
}

#[test]
fn test_ctrl_c_quits() {
    let mut app = App::new();
    ctrl(&mut app, Key::Char('c'));
    assert!(app.should_quit());
}

#[test]
fn test_ctrl_d_half_page_down() {
    let mut app = app_with_packages(50);
    app.page_size = 20;
    ctrl(&mut app, Key::Char('d'));
    assert_eq!(app.selected_package, 10);
}

#[test]
fn test_ctrl_u_half_page_up() {
    let mut app = app_with_packages(50);
    app.page_size = 20;
    app.selected_package = 30;
    ctrl(&mut app, Key::Char('u'));
    assert_eq!(app.selected_package, 20);
}

#[test]
fn test_ctrl_f_full_page_down() {
    let mut app = app_with_packages(50);
    app.page_size = 10;
    ctrl(&mut app, Key::Char('f'));
    assert_eq!(app.selected_package, 10);
}

#[test]
fn test_ctrl_b_full_page_up() {
    let mut app = app_with_packages(50);
    app.page_size = 10;
    app.selected_package = 20;
    ctrl(&mut app, Key::Char('b'));
    assert_eq!(app.selected_package, 10);
}

#[test]
fn test_h_focuses_packages_panel() {
    let mut app = App::new();
    app.active_panel = ActivePanel::Commands;
    press(&mut app, Key::Char('h'));
    assert_eq!(app.active_panel, ActivePanel::Packages);
}

#[test]
fn test_l_focuses_commands_panel() {
    let mut app = App::new();
    assert_eq!(app.active_panel, ActivePanel::Packages);
    press(&mut app, Key::Char('l'));
    assert_eq!(app.active_panel, ActivePanel::Commands);
}

#[test]
fn test_h_on_packages_panel_stays() {
    let mut app = App::new();
    assert_eq!(app.active_panel, ActivePanel::Packages);
    press(&mut app, Key::Char('h'));
    assert_eq!(app.active_panel, ActivePanel::Packages);
}

#[test]
fn test_l_on_commands_panel_stays() {
    let mut app = App::new();
    app.active_panel = ActivePanel::Commands;
    press(&mut app, Key::Char('l'));
    assert_eq!(app.active_panel, ActivePanel::Commands);
}

#[test]
fn test_question_mark_opens_help() {
    let mut app = App::new();
    assert!(!app.show_help);
    press(&mut app, Key::Char('?'));
    assert!(app.show_help);
}

#[test]
fn test_question_mark_closes_help() {
    let mut app = App::new();
    app.show_help = true;
    press(&mut app, Key::Char('?'));
    assert!(!app.show_help);
}

#[test]
fn test_esc_closes_help() {
    let mut app = App::new();
    app.show_help = true;
    press(&mut app, Key::Esc);
    assert!(!app.show_help);
    // Should NOT quit (Esc only closes help, doesn't propagate)
    assert!(!app.should_quit());
}

#[test]
fn test_help_blocks_other_keys() {
    let mut app = app_with_packages(10);
    app.show_help = true;
    press(&mut app, Key::Char('j'));
    // Navigation should be blocked when help is open
    assert_eq!(app.selected_package, 0);
    press(&mut app, Key::Char('q'));
    // Quit should be blocked too
    assert!(!app.should_quit());
    // Help still open
    assert!(app.show_help);
}

#[test]
fn test_help_toggle_roundtrip() {
    let mut app = App::new();
    press(&mut app, Key::Char('?'));
    assert!(app.show_help);
    press(&mut app, Key::Char('?'));
    assert!(!app.show_help);
    // App still idle, not quit
    assert_eq!(app.state, AppState::Idle);
    assert!(!app.should_quit());
}

#[test]
fn test_enter_on_commands_panel_sets_pending_command() {
    let mut app = App::new();
    app.active_panel = ActivePanel::Commands;
    app.selected_command = 0; // "analyze" (supported)

    // First Enter opens the options overlay.
    press(&mut app, Key::Enter);
    assert!(app.show_options);
    assert!(app.command_opts.is_some());
    assert!(app.pending_command.is_none());

    // Second Enter confirms and sets pending_command.
    press(&mut app, Key::Enter);
    assert!(!app.show_options);
    assert_eq!(app.pending_command.as_deref(), Some("analyze"));
}

#[test]
fn test_enter_on_packages_panel_does_nothing() {
    let mut app = App::new();
    app.active_panel = ActivePanel::Packages;
    press(&mut app, Key::Enter);
    assert!(app.pending_command.is_none());
}

#[test]
fn test_enter_in_running_does_nothing() {
    let mut app = App::new();
    app.state = AppState::Running;
    app.active_panel = ActivePanel::Commands;
    press(&mut app, Key::Enter);
    assert!(app.pending_command.is_none());
}

#[test]
fn test_enter_with_empty_commands_does_nothing() {
    let mut app = App::new();
    app.command_rows.clear();
    app.active_panel = ActivePanel::Commands;
    press(&mut app, Key::Enter);
    assert!(app.pending_command.is_none());
}

#[test]
fn test_enter_selects_correct_command_by_index() {
    let mut app = App::new();
    app.active_panel = ActivePanel::Commands;
    // Select "format" (index 5 in BUILTIN_COMMANDS: analyze,bootstrap,build,clean,exec,format)
    app.selected_command = 5;

    // First Enter opens options overlay for supported command.
    press(&mut app, Key::Enter);
    assert!(app.show_options);
    assert!(app.pending_command.is_none());

    // Second Enter confirms.
    press(&mut app, Key::Enter);
    assert_eq!(app.pending_command.as_deref(), Some("format"));
}

#[test]
fn test_start_command_transitions_to_running() {
    let mut app = App::new();
    app.start_command("analyze");
    assert_eq!(app.state, AppState::Running);
    assert_eq!(app.running_command.as_deref(), Some("analyze"));
}

#[test]
fn test_start_command_clears_previous_state() {
    let mut app = App::new();
    app.finished_packages
        .push(("old".to_string(), true, Duration::from_secs(1)));
    app.output_log
        .push(("pkg".to_string(), "line".to_string(), false));
    app.exec_messages.push("old msg".to_string());
    app.command_error = Some("old error".to_string());
    app.start_command("test");
    assert!(app.finished_packages.is_empty());
    assert!(app.output_log.is_empty());
    assert!(app.exec_messages.is_empty());
    assert!(app.command_error.is_none());
}

#[test]
fn test_handle_command_started_sets_progress() {
    let mut app = App::new();
    app.state = AppState::Running;
    app.handle_core_event(Event::CommandStarted {
        command: "analyze".to_string(),
        package_count: 5,
    });
    assert_eq!(app.progress, Some((0, 5, "analyze".to_string())));
}

#[test]
fn test_handle_package_started_adds_to_running() {
    let mut app = App::new();
    app.state = AppState::Running;
    app.handle_core_event(Event::PackageStarted {
        name: "pkg_a".to_string(),
    });
    assert_eq!(app.running_packages, vec!["pkg_a"]);
}

#[test]
fn test_handle_package_finished_moves_to_results() {
    let mut app = App::new();
    app.state = AppState::Running;
    app.running_packages.push("pkg_a".to_string());
    app.progress = Some((0, 3, String::new()));

    app.handle_core_event(Event::PackageFinished {
        name: "pkg_a".to_string(),
        success: true,
        duration: Duration::from_millis(100),
    });

    assert!(app.running_packages.is_empty());
    assert_eq!(app.finished_packages.len(), 1);
    assert_eq!(app.finished_packages[0].0, "pkg_a");
    assert!(app.finished_packages[0].1);
    assert_eq!(app.progress, Some((1, 3, String::new())));
}

#[test]
fn test_handle_package_output_appends_to_log() {
    let mut app = App::new();
    app.state = AppState::Running;
    app.handle_core_event(Event::PackageOutput {
        name: "pkg_a".to_string(),
        line: "hello world".to_string(),
        is_stderr: false,
    });
    assert_eq!(app.output_log.len(), 1);
    assert_eq!(app.output_log[0].1, "hello world");
    assert!(!app.output_log[0].2);
}

#[test]
fn test_handle_progress_updates_progress() {
    let mut app = App::new();
    app.state = AppState::Running;
    app.handle_core_event(Event::Progress {
        completed: 3,
        total: 10,
        message: "analyzing".to_string(),
    });
    assert_eq!(app.progress, Some((3, 10, "analyzing".to_string())));
}

#[test]
fn test_handle_warning_appends_message() {
    let mut app = App::new();
    app.state = AppState::Running;
    app.handle_core_event(Event::Warning("something wrong".to_string()));
    assert_eq!(app.exec_messages.len(), 1);
    assert!(app.exec_messages[0].contains("something wrong"));
}

#[test]
fn test_handle_info_appends_message() {
    let mut app = App::new();
    app.state = AppState::Running;
    app.handle_core_event(Event::Info("info msg".to_string()));
    assert_eq!(app.exec_messages, vec!["info msg"]);
}

#[test]
fn test_on_command_finished_success_transitions_to_done() {
    let mut app = App::new();
    app.state = AppState::Running;
    app.running_command = Some("analyze".to_string());
    app.on_command_finished(Ok(Ok(())));
    assert_eq!(app.state, AppState::Done);
    // running_command is preserved so Done state can display it.
    assert_eq!(app.running_command.as_deref(), Some("analyze"));
    assert!(app.command_error.is_none());
}

#[test]
fn test_on_command_finished_error_records_message() {
    let mut app = App::new();
    app.state = AppState::Running;
    app.on_command_finished(Ok(Err(anyhow::Error::msg("command failed"))));
    assert_eq!(app.state, AppState::Done);
    assert!(
        app.command_error
            .as_ref()
            .is_some_and(|e| e.contains("command failed"))
    );
}

#[test]
fn test_on_command_cancelled_returns_to_idle() {
    let mut app = App::new();
    app.state = AppState::Running;
    app.running_command = Some("test".to_string());
    app.running_packages.push("pkg_a".to_string());
    app.on_command_cancelled();
    assert_eq!(app.state, AppState::Idle);
    assert!(app.running_command.is_none());
    assert!(app.running_packages.is_empty());
}

#[test]
fn test_running_blocks_navigation_keys() {
    let mut app = app_with_packages(10);
    app.state = AppState::Running;
    press(&mut app, Key::Char('j'));
    assert_eq!(app.selected_package, 0);
    press(&mut app, Key::Char('q'));
    assert!(!app.should_quit());
}

#[test]
fn test_running_allows_ctrl_c_quit() {
    let mut app = App::new();
    app.state = AppState::Running;
    ctrl(&mut app, Key::Char('c'));
    assert!(app.should_quit());
}

#[test]
fn test_idle_to_running_to_done_lifecycle() {
    let mut app = App::new();
    app.active_panel = ActivePanel::Commands;
    assert_eq!(app.state, AppState::Idle);

    // Press Enter to open options overlay (analyze is supported).
    press(&mut app, Key::Enter);
    assert!(app.show_options);
    assert!(app.pending_command.is_none());

    // Press Enter again to confirm options and request command.
    press(&mut app, Key::Enter);
    assert!(!app.show_options);
    assert_eq!(app.pending_command.as_deref(), Some("analyze"));

    // Main loop consumes pending_command and calls start_command.
    let cmd = app.pending_command.take().unwrap();
    app.start_command(&cmd);
    assert_eq!(app.state, AppState::Running);

    // Core events arrive.
    app.handle_core_event(Event::CommandStarted {
        command: "analyze".to_string(),
        package_count: 2,
    });
    app.handle_core_event(Event::PackageStarted {
        name: "pkg_a".to_string(),
    });
    app.handle_core_event(Event::PackageFinished {
        name: "pkg_a".to_string(),
        success: true,
        duration: Duration::from_millis(50),
    });
    app.handle_core_event(Event::PackageStarted {
        name: "pkg_b".to_string(),
    });
    app.handle_core_event(Event::PackageFinished {
        name: "pkg_b".to_string(),
        success: false,
        duration: Duration::from_millis(100),
    });
    app.handle_core_event(Event::CommandFinished {
        command: "analyze".to_string(),
        duration: Duration::from_millis(150),
    });

    // Channel closes, main loop calls on_command_finished.
    app.on_command_finished(Ok(Ok(())));
    assert_eq!(app.state, AppState::Done);
    assert_eq!(app.finished_packages.len(), 2);
    assert!(app.finished_packages[0].1); // pkg_a success
    assert!(!app.finished_packages[1].1); // pkg_b failure

    // Esc returns to Idle.
    press(&mut app, Key::Esc);
    assert_eq!(app.state, AppState::Idle);
}

fn app_in_done_with_output(line_count: usize) -> App {
    let mut app = App::new();
    app.state = AppState::Done;
    app.page_size = 10;
    for i in 0..line_count {
        app.output_log
            .push(("pkg".to_string(), format!("line {i}"), false));
    }
    app
}

#[test]
fn test_done_j_scrolls_down() {
    let mut app = app_in_done_with_output(30);
    assert_eq!(app.output_scroll, 0);
    press(&mut app, Key::Char('j'));
    assert_eq!(app.output_scroll, 1);
    assert_eq!(app.state, AppState::Done);
}

#[test]
fn test_done_k_scrolls_up() {
    let mut app = app_in_done_with_output(30);
    app.output_scroll = 5;
    press(&mut app, Key::Char('k'));
    assert_eq!(app.output_scroll, 4);
}

#[test]
fn test_done_k_clamps_at_zero() {
    let mut app = app_in_done_with_output(30);
    app.output_scroll = 0;
    press(&mut app, Key::Char('k'));
    assert_eq!(app.output_scroll, 0);
}

#[test]
fn test_done_g_jumps_to_start() {
    let mut app = app_in_done_with_output(30);
    app.output_scroll = 20;
    press(&mut app, Key::Char('g'));
    assert_eq!(app.output_scroll, 0);
}

#[test]
fn test_done_shift_g_jumps_to_end() {
    let mut app = app_in_done_with_output(30);
    press(&mut app, Key::Char('G'));
    assert_eq!(app.output_scroll, 29);
}

#[test]
fn test_done_f_pages_down() {
    let mut app = app_in_done_with_output(30);
    press(&mut app, Key::Char('f'));
    assert_eq!(app.output_scroll, 10);
}

#[test]
fn test_done_b_pages_up() {
    let mut app = app_in_done_with_output(30);
    app.output_scroll = 20;
    press(&mut app, Key::Char('b'));
    assert_eq!(app.output_scroll, 10);
}

#[test]
fn test_done_ctrl_d_half_page_down() {
    let mut app = app_in_done_with_output(30);
    ctrl(&mut app, Key::Char('d'));
    assert_eq!(app.output_scroll, 5);
}

#[test]
fn test_done_ctrl_u_half_page_up() {
    let mut app = app_in_done_with_output(30);
    app.output_scroll = 15;
    ctrl(&mut app, Key::Char('u'));
    assert_eq!(app.output_scroll, 10);
}

#[test]
fn test_done_scroll_clamped_to_max() {
    let mut app = app_in_done_with_output(5);
    press(&mut app, Key::Char('f'));
    // max_scroll = 5 - 1 = 4
    assert_eq!(app.output_scroll, 4);
}

#[test]
fn test_handle_package_output_strips_ansi() {
    let mut app = App::new();
    app.state = AppState::Running;
    app.handle_core_event(Event::PackageOutput {
        name: "pkg_a".to_string(),
        line: "\x1b[32mSUCCESS\x1b[0m".to_string(),
        is_stderr: false,
    });
    assert_eq!(app.output_log[0].1, "SUCCESS");
}

fn app_with_options(command: &str) -> App {
    let mut app = App::new();
    app.active_panel = ActivePanel::Commands;
    // Find the command index in command_rows.
    let idx = app
        .command_rows
        .iter()
        .position(|c| c.name == command)
        .expect("command not found in builtin list");
    app.selected_command = idx;
    // Open the options overlay.
    press(&mut app, Key::Enter);
    assert!(app.show_options, "options overlay should be visible");
    app
}

#[test]
fn test_options_j_navigates_down() {
    let mut app = app_with_options("analyze");
    assert_eq!(app.selected_option, 0);
    press(&mut app, Key::Char('j'));
    assert_eq!(app.selected_option, 1);
}

#[test]
fn test_options_k_wraps_to_bottom() {
    let mut app = app_with_options("analyze");
    assert_eq!(app.selected_option, 0);
    // k at 0 wraps to last (4 opts + 1 Run row = 5 total, last = 4).
    press(&mut app, Key::Char('k'));
    assert_eq!(app.selected_option, 4);
}

#[test]
fn test_options_j_wraps_around() {
    let mut app = app_with_options("clean");
    // Clean has 1 option + 1 Run row = 2 total.
    assert_eq!(app.selected_option, 0);
    press(&mut app, Key::Char('j'));
    assert_eq!(app.selected_option, 1); // "Run" row
    press(&mut app, Key::Char('j'));
    assert_eq!(app.selected_option, 0); // wrapped
}

#[test]
fn test_options_space_toggles_bool() {
    let mut app = app_with_options("analyze");
    // Move to index 1 (fatal-warnings).
    press(&mut app, Key::Char('j'));
    press(&mut app, Key::Char(' '));
    match app.command_opts.as_ref().unwrap() {
        CommandOpts::Analyze { fatal_warnings, .. } => assert!(*fatal_warnings),
        _ => panic!("wrong variant"),
    }
}

#[test]
fn test_options_space_on_run_confirms() {
    let mut app = app_with_options("clean");
    // Clean: 1 option, Run is at index 1.
    press(&mut app, Key::Char('j'));
    assert_eq!(app.selected_option, 1);
    press(&mut app, Key::Char(' '));
    assert!(!app.show_options);
    assert!(app.pending_command.is_some());
}

#[test]
fn test_options_plus_increments() {
    let mut app = app_with_options("analyze");
    // Index 0 = concurrency.
    press(&mut app, Key::Char('+'));
    match app.command_opts.as_ref().unwrap() {
        CommandOpts::Analyze { concurrency, .. } => assert_eq!(*concurrency, 2),
        _ => panic!("wrong variant"),
    }
}

#[test]
fn test_options_minus_decrements() {
    let mut app = app_with_options("analyze");
    // Increment to 3, then decrement to 2.
    press(&mut app, Key::Char('+'));
    press(&mut app, Key::Char('+'));
    press(&mut app, Key::Char('-'));
    match app.command_opts.as_ref().unwrap() {
        CommandOpts::Analyze { concurrency, .. } => assert_eq!(*concurrency, 2),
        _ => panic!("wrong variant"),
    }
}

#[test]
fn test_options_esc_dismisses() {
    let mut app = app_with_options("analyze");
    press(&mut app, Key::Esc);
    assert!(!app.show_options);
    assert!(app.command_opts.is_none());
    assert!(app.pending_command.is_none());
}

#[test]
fn test_options_q_dismisses() {
    let mut app = app_with_options("format");
    press(&mut app, Key::Char('q'));
    assert!(!app.show_options);
    assert!(app.command_opts.is_none());
    assert!(app.pending_command.is_none());
}

#[test]
fn test_options_enter_confirms() {
    let mut app = app_with_options("test");
    press(&mut app, Key::Enter);
    assert!(!app.show_options);
    assert_eq!(app.pending_command.as_deref(), Some("test"));
}

#[test]
fn test_unsupported_command_skips_overlay() {
    let mut app = App::new();
    app.active_panel = ActivePanel::Commands;
    // "exec" is at index 4 (analyze=0, bootstrap=1, build=2, clean=3, exec=4).
    app.selected_command = 4;
    press(&mut app, Key::Enter);
    // Should set pending_command directly without opening overlay.
    assert!(!app.show_options);
    assert!(app.command_opts.is_none());
    assert_eq!(app.pending_command.as_deref(), Some("exec"));
}

#[test]
fn test_unsupported_command_build_skips_overlay() {
    let mut app = App::new();
    app.active_panel = ActivePanel::Commands;
    // "build" is at index 2.
    app.selected_command = 2;
    press(&mut app, Key::Enter);
    assert!(!app.show_options);
    assert_eq!(app.pending_command.as_deref(), Some("build"));
}

#[test]
fn test_is_supported_set_on_builtin_commands() {
    let app = App::new();
    for row in &app.command_rows {
        let expected = SUPPORTED_COMMANDS.contains(&row.name.as_str());
        assert_eq!(
            row.is_supported, expected,
            "is_supported mismatch for '{}'",
            row.name
        );
    }
}

#[test]
fn test_scrollback_truncation_at_limit() {
    let mut app = App::new();
    app.state = AppState::Running;
    // Push exactly MAX_SCROLLBACK + 50 lines.
    for i in 0..MAX_SCROLLBACK + 50 {
        app.handle_core_event(Event::PackageOutput {
            name: "pkg".to_string(),
            line: format!("line {i}"),
            is_stderr: false,
        });
    }
    assert_eq!(app.output_log.len(), MAX_SCROLLBACK);
    // First retained line should be line 50 (oldest 50 were dropped).
    assert_eq!(app.output_log[0].1, "line 50");
}

#[test]
fn test_scrollback_below_limit_no_truncation() {
    let mut app = App::new();
    app.state = AppState::Running;
    for i in 0..100 {
        app.handle_core_event(Event::PackageOutput {
            name: "pkg".to_string(),
            line: format!("line {i}"),
            is_stderr: false,
        });
    }
    assert_eq!(app.output_log.len(), 100);
    assert_eq!(app.output_log[0].1, "line 0");
}

#[test]
fn test_scrollback_truncation_adjusts_scroll_offset() {
    let mut app = App::new();
    app.state = AppState::Running;
    // Push MAX_SCROLLBACK lines.
    for i in 0..MAX_SCROLLBACK {
        app.handle_core_event(Event::PackageOutput {
            name: "pkg".to_string(),
            line: format!("line {i}"),
            is_stderr: false,
        });
    }
    // Set scroll to line 100.
    app.output_scroll = 100;
    // Push 200 more lines to trigger truncation.
    for i in 0..200 {
        app.handle_core_event(Event::PackageOutput {
            name: "pkg".to_string(),
            line: format!("extra {i}"),
            is_stderr: false,
        });
    }
    assert_eq!(app.output_log.len(), MAX_SCROLLBACK);
    // Scroll offset should have been reduced by the 200 drained lines.
    assert_eq!(app.output_scroll, 0);
}

#[test]
fn test_auto_scroll_default_true() {
    let app = App::new();
    assert!(app.auto_scroll);
}

#[test]
fn test_auto_scroll_reset_on_start_command() {
    let mut app = App::new();
    app.auto_scroll = false;
    app.start_command("test");
    assert!(app.auto_scroll);
}

#[test]
fn test_scroll_up_disables_auto_scroll_in_running() {
    let mut app = App::new();
    app.state = AppState::Running;
    // Add some output so scroll has room.
    for i in 0..50 {
        app.output_log
            .push(("pkg".to_string(), format!("line {i}"), false));
    }
    app.output_scroll = 30;
    assert!(app.auto_scroll);
    press(&mut app, Key::Up);
    assert!(!app.auto_scroll);
    assert_eq!(app.output_scroll, 29);
}

#[test]
fn test_scroll_down_at_end_reengages_auto_scroll() {
    let mut app = App::new();
    app.state = AppState::Running;
    for i in 0..10 {
        app.output_log
            .push(("pkg".to_string(), format!("line {i}"), false));
    }
    app.output_scroll = 8;
    app.auto_scroll = false;
    // Scroll down past end (max is 9).
    press(&mut app, Key::Down);
    assert_eq!(app.output_scroll, 9);
    assert!(app.auto_scroll);
}

#[test]
fn test_scroll_end_reengages_auto_scroll() {
    let mut app = App::new();
    app.state = AppState::Running;
    for i in 0..20 {
        app.output_log
            .push(("pkg".to_string(), format!("line {i}"), false));
    }
    app.auto_scroll = false;
    press(&mut app, Key::End);
    assert!(app.auto_scroll);
    assert_eq!(app.output_scroll, 19);
}

#[test]
fn test_home_disables_auto_scroll() {
    let mut app = App::new();
    app.state = AppState::Running;
    for i in 0..20 {
        app.output_log
            .push(("pkg".to_string(), format!("line {i}"), false));
    }
    press(&mut app, Key::Home);
    assert!(!app.auto_scroll);
    assert_eq!(app.output_scroll, 0);
}

#[test]
fn test_running_j_scrolls_down() {
    let mut app = App::new();
    app.state = AppState::Running;
    for i in 0..30 {
        app.output_log
            .push(("pkg".to_string(), format!("line {i}"), false));
    }
    assert_eq!(app.output_scroll, 0);
    press(&mut app, Key::Char('j'));
    assert_eq!(app.output_scroll, 1);
}

#[test]
fn test_running_k_scrolls_up() {
    let mut app = App::new();
    app.state = AppState::Running;
    for i in 0..30 {
        app.output_log
            .push(("pkg".to_string(), format!("line {i}"), false));
    }
    app.output_scroll = 10;
    press(&mut app, Key::Char('k'));
    assert_eq!(app.output_scroll, 9);
}

#[test]
fn test_running_g_jumps_to_start() {
    let mut app = App::new();
    app.state = AppState::Running;
    for i in 0..30 {
        app.output_log
            .push(("pkg".to_string(), format!("line {i}"), false));
    }
    app.output_scroll = 20;
    press(&mut app, Key::Char('g'));
    assert_eq!(app.output_scroll, 0);
}

#[test]
fn test_running_shift_g_jumps_to_end() {
    let mut app = App::new();
    app.state = AppState::Running;
    for i in 0..30 {
        app.output_log
            .push(("pkg".to_string(), format!("line {i}"), false));
    }
    press(&mut app, Key::Char('G'));
    assert_eq!(app.output_scroll, 29);
}

#[test]
fn test_running_page_down() {
    let mut app = App::new();
    app.state = AppState::Running;
    app.page_size = 10;
    for i in 0..50 {
        app.output_log
            .push(("pkg".to_string(), format!("line {i}"), false));
    }
    press(&mut app, Key::PageDown);
    assert_eq!(app.output_scroll, 10);
}

#[test]
fn test_running_page_up() {
    let mut app = App::new();
    app.state = AppState::Running;
    app.page_size = 10;
    for i in 0..50 {
        app.output_log
            .push(("pkg".to_string(), format!("line {i}"), false));
    }
    app.output_scroll = 25;
    press(&mut app, Key::PageUp);
    assert_eq!(app.output_scroll, 15);
}

#[test]
fn test_running_ctrl_d_half_page() {
    let mut app = App::new();
    app.state = AppState::Running;
    app.page_size = 10;
    for i in 0..50 {
        app.output_log
            .push(("pkg".to_string(), format!("line {i}"), false));
    }
    ctrl(&mut app, Key::Char('d'));
    assert_eq!(app.output_scroll, 5);
}

#[test]
fn test_running_ctrl_u_half_page_up() {
    let mut app = App::new();
    app.state = AppState::Running;
    app.page_size = 10;
    for i in 0..50 {
        app.output_log
            .push(("pkg".to_string(), format!("line {i}"), false));
    }
    app.output_scroll = 20;
    ctrl(&mut app, Key::Char('u'));
    assert_eq!(app.output_scroll, 15);
}

#[test]
fn test_running_q_does_not_quit() {
    let mut app = App::new();
    app.state = AppState::Running;
    press(&mut app, Key::Char('q'));
    assert!(!app.should_quit());
}

#[test]
fn test_running_tab_does_not_switch_panel() {
    let mut app = App::new();
    app.state = AppState::Running;
    app.active_panel = ActivePanel::Packages;
    press(&mut app, Key::Tab);
    assert_eq!(app.active_panel, ActivePanel::Packages);
}

#[test]
fn test_command_start_none_initially() {
    let app = App::new();
    assert!(app.command_start.is_none());
    assert!(app.elapsed().is_none());
}

#[test]
fn test_start_command_sets_command_start() {
    let mut app = App::new();
    app.start_command("analyze");
    assert!(app.command_start.is_some());
    assert!(app.elapsed().is_some());
}

#[test]
fn test_on_command_finished_clears_command_start() {
    let mut app = App::new();
    app.start_command("analyze");
    assert!(app.command_start.is_some());
    app.on_command_finished(Ok(Ok(())));
    assert!(app.command_start.is_none());
}

#[test]
fn test_on_command_cancelled_clears_command_start() {
    let mut app = App::new();
    app.start_command("analyze");
    assert!(app.command_start.is_some());
    app.on_command_cancelled();
    assert!(app.command_start.is_none());
}

#[test]
fn test_elapsed_returns_positive_duration() {
    let mut app = App::new();
    app.start_command("test");
    // Wait briefly to ensure elapsed > 0.
    let spin_start = std::time::Instant::now();
    while spin_start.elapsed() < Duration::from_millis(5) {}
    let elapsed = app.elapsed().unwrap();
    assert!(elapsed >= Duration::from_millis(1));
}

fn make_health_report() -> HealthReport {
    HealthReport {
        version_drift: Some(vec![]),
        missing_fields: Some(vec![]),
        sdk_consistency: Some(SdkConsistencyResult::default()),
        total_issues: 0,
    }
}

#[test]
fn test_health_report_none_initially() {
    let app = App::new();
    assert!(app.health_report.is_none());
    assert_eq!(app.health_tab, 0);
}

#[test]
fn test_start_command_clears_health_report() {
    let mut app = App::new();
    app.health_report = Some(make_health_report());
    app.health_tab = 2;
    app.start_command("analyze");
    assert!(app.health_report.is_none());
    assert_eq!(app.health_tab, 0);
}

#[test]
fn test_set_health_report() {
    let mut app = App::new();
    app.set_health_report(make_health_report());
    assert!(app.health_report.is_some());
}

#[test]
fn test_done_tab_cycles_health_tab_forward() {
    let mut app = App::new();
    app.state = AppState::Done;
    app.health_report = Some(make_health_report());
    assert_eq!(app.health_tab, 0);
    press(&mut app, Key::Tab);
    assert_eq!(app.health_tab, 1);
    press(&mut app, Key::Tab);
    assert_eq!(app.health_tab, 2);
    press(&mut app, Key::Tab);
    assert_eq!(app.health_tab, 0);
}

#[test]
fn test_done_backtab_cycles_health_tab_backward() {
    let mut app = App::new();
    app.state = AppState::Done;
    app.health_report = Some(make_health_report());
    assert_eq!(app.health_tab, 0);
    press(&mut app, Key::BackTab);
    assert_eq!(app.health_tab, 2);
    press(&mut app, Key::BackTab);
    assert_eq!(app.health_tab, 1);
    press(&mut app, Key::BackTab);
    assert_eq!(app.health_tab, 0);
}

#[test]
fn test_done_tab_without_health_report_does_nothing() {
    let mut app = App::new();
    app.state = AppState::Done;
    // No health report set.
    press(&mut app, Key::Tab);
    assert_eq!(app.health_tab, 0);
    // Should still be in Done state (Tab didn't return to Idle).
    assert_eq!(app.state, AppState::Done);
}

#[test]
fn test_on_command_finished_preserves_running_command() {
    let mut app = App::new();
    app.start_command("health");
    app.on_command_finished(Ok(Ok(())));
    assert_eq!(app.running_command.as_deref(), Some("health"));
}

#[test]
fn test_on_command_cancelled_clears_running_command() {
    let mut app = App::new();
    app.start_command("health");
    app.on_command_cancelled();
    assert!(app.running_command.is_none());
}

/// Helper: create an App with named package rows for filter testing.
fn app_with_named_packages(names: &[&str]) -> App {
    let mut app = App::new();
    app.workspace_name = Some("test".to_string());
    for name in names {
        app.package_rows.push(PackageRow {
            name: name.to_string(),
            version: "1.0.0".to_string(),
            sdk: "Dart",
            path: format!("packages/{name}"),
            is_private: false,
        });
    }
    app
}

#[test]
fn test_slash_activates_filter() {
    let mut app = app_with_named_packages(&["alpha", "beta", "gamma"]);
    assert!(!app.filter_active);
    press(&mut app, Key::Char('/'));
    assert!(app.filter_active);
}

#[test]
fn test_filter_typing_appends_chars() {
    let mut app = app_with_named_packages(&["alpha", "beta", "gamma"]);
    press(&mut app, Key::Char('/'));
    press(&mut app, Key::Char('a'));
    press(&mut app, Key::Char('l'));
    assert_eq!(app.filter_text, "al");
}

#[test]
fn test_filter_backspace_removes_last_char() {
    let mut app = app_with_named_packages(&["alpha", "beta", "gamma"]);
    press(&mut app, Key::Char('/'));
    press(&mut app, Key::Char('a'));
    press(&mut app, Key::Char('b'));
    press(&mut app, Key::Backspace);
    assert_eq!(app.filter_text, "a");
}

#[test]
fn test_filter_backspace_on_empty_is_noop() {
    let mut app = app_with_named_packages(&["alpha", "beta"]);
    press(&mut app, Key::Char('/'));
    press(&mut app, Key::Backspace);
    assert!(app.filter_text.is_empty());
    assert!(app.filter_active);
}

#[test]
fn test_filter_enter_applies_and_closes() {
    let mut app = app_with_named_packages(&["alpha", "beta", "gamma"]);
    press(&mut app, Key::Char('/'));
    press(&mut app, Key::Char('l'));
    press(&mut app, Key::Enter);
    assert!(!app.filter_active);
    assert!(app.has_filter());
    assert_eq!(app.filter_text, "l");
    // Only "alpha" contains 'l'.
    assert_eq!(app.visible_package_count(), 1);
}

#[test]
fn test_filter_esc_cancels_and_clears() {
    let mut app = app_with_named_packages(&["alpha", "beta", "gamma"]);
    press(&mut app, Key::Char('/'));
    press(&mut app, Key::Char('x'));
    press(&mut app, Key::Esc);
    assert!(!app.filter_active);
    assert!(!app.has_filter());
    assert!(app.filter_text.is_empty());
    assert!(app.filtered_indices.is_empty());
}

#[test]
fn test_filter_live_preview_recomputes_on_keystroke() {
    let mut app = app_with_named_packages(&["alpha", "beta", "gamma"]);
    press(&mut app, Key::Char('/'));
    // 'l' matches only "alpha"
    press(&mut app, Key::Char('l'));
    assert_eq!(app.filtered_indices.len(), 1);
    assert_eq!(app.filtered_indices[0], 0); // index of "alpha"
    // Backspace to clear, then 'e' matches "beta" only
    press(&mut app, Key::Backspace);
    press(&mut app, Key::Char('e'));
    assert_eq!(app.filtered_indices.len(), 1);
    assert_eq!(app.filtered_indices[0], 1); // index of "beta"
}

#[test]
fn test_filter_case_insensitive() {
    let mut app = app_with_named_packages(&["Alpha", "BETA", "gamma"]);
    press(&mut app, Key::Char('/'));
    press(&mut app, Key::Char('b'));
    press(&mut app, Key::Enter);
    assert_eq!(app.visible_package_count(), 1);
    let visible = app.visible_packages();
    assert_eq!(visible[0].name, "BETA");
}

#[test]
fn test_has_filter_returns_false_when_empty() {
    let app = App::new();
    assert!(!app.has_filter());
}

#[test]
fn test_has_filter_returns_true_with_text() {
    let mut app = app_with_named_packages(&["alpha"]);
    press(&mut app, Key::Char('/'));
    press(&mut app, Key::Char('a'));
    press(&mut app, Key::Enter);
    assert!(app.has_filter());
}

#[test]
fn test_visible_package_count_without_filter() {
    let app = app_with_named_packages(&["alpha", "beta", "gamma"]);
    assert_eq!(app.visible_package_count(), 3);
}

#[test]
fn test_visible_package_count_with_filter() {
    let mut app = app_with_named_packages(&["alpha", "beta", "gamma"]);
    press(&mut app, Key::Char('/'));
    press(&mut app, Key::Char('l'));
    press(&mut app, Key::Enter);
    // Only "alpha" contains 'l'
    assert_eq!(app.visible_package_count(), 1);
}

#[test]
fn test_visible_packages_without_filter() {
    let app = app_with_named_packages(&["alpha", "beta"]);
    let visible = app.visible_packages();
    assert_eq!(visible.len(), 2);
    assert_eq!(visible[0].name, "alpha");
    assert_eq!(visible[1].name, "beta");
}

#[test]
fn test_visible_packages_with_filter() {
    let mut app = app_with_named_packages(&["alpha", "beta", "gamma"]);
    press(&mut app, Key::Char('/'));
    press(&mut app, Key::Char('b'));
    press(&mut app, Key::Enter);
    let visible = app.visible_packages();
    assert_eq!(visible.len(), 1);
    assert_eq!(visible[0].name, "beta");
}

#[test]
fn test_filter_resets_selected_package_on_apply() {
    let mut app = app_with_named_packages(&["alpha", "beta", "gamma"]);
    app.selected_package = 2;
    press(&mut app, Key::Char('/'));
    press(&mut app, Key::Char('a'));
    press(&mut app, Key::Enter);
    assert_eq!(app.selected_package, 0);
}

#[test]
fn test_filter_resets_selected_package_on_cancel() {
    let mut app = app_with_named_packages(&["alpha", "beta", "gamma"]);
    app.selected_package = 2;
    press(&mut app, Key::Char('/'));
    press(&mut app, Key::Char('x'));
    press(&mut app, Key::Esc);
    assert_eq!(app.selected_package, 0);
}

#[test]
fn test_filter_empty_result() {
    let mut app = app_with_named_packages(&["alpha", "beta", "gamma"]);
    press(&mut app, Key::Char('/'));
    press(&mut app, Key::Char('z'));
    press(&mut app, Key::Enter);
    assert!(app.has_filter());
    assert_eq!(app.visible_package_count(), 0);
    assert!(app.visible_packages().is_empty());
}

#[test]
fn test_esc_in_idle_clears_filter_instead_of_quit() {
    let mut app = app_with_named_packages(&["alpha", "beta", "gamma"]);
    // Apply a filter first.
    press(&mut app, Key::Char('/'));
    press(&mut app, Key::Char('a'));
    press(&mut app, Key::Enter);
    assert!(app.has_filter());
    // Esc should clear filter, not quit.
    press(&mut app, Key::Esc);
    assert!(!app.has_filter());
    assert!(!app.quit);
    // Second Esc should now quit.
    press(&mut app, Key::Esc);
    assert!(app.quit);
}

#[test]
fn test_filter_input_blocks_other_keys() {
    let mut app = app_with_named_packages(&["alpha", "beta"]);
    app.active_panel = ActivePanel::Packages;
    press(&mut app, Key::Char('/'));
    // 'j' should go into filter text, not move selection.
    press(&mut app, Key::Char('j'));
    assert_eq!(app.filter_text, "j");
    assert_eq!(app.selected_package, 0); // Unchanged (recompute resets to 0).
}

#[test]
fn test_filter_navigation_uses_visible_count() {
    let mut app = app_with_named_packages(&["alpha", "beta", "gamma", "delta"]);
    app.active_panel = ActivePanel::Packages;
    // Apply filter matching 2 packages: "alpha" and "delta" (contain 'l').
    press(&mut app, Key::Char('/'));
    press(&mut app, Key::Char('l'));
    press(&mut app, Key::Enter);
    assert_eq!(app.visible_package_count(), 2);
    // Navigate down: should wrap at 2 (visible count), not 4 (total).
    press(&mut app, Key::Down);
    assert_eq!(app.selected_package, 1);
    press(&mut app, Key::Down);
    assert_eq!(app.selected_package, 0); // Wrapped.
}

#[test]
fn test_filter_enter_with_empty_text_clears_filter() {
    let mut app = app_with_named_packages(&["alpha", "beta"]);
    // First apply a real filter.
    press(&mut app, Key::Char('/'));
    press(&mut app, Key::Char('a'));
    press(&mut app, Key::Enter);
    assert!(app.has_filter());
    // Now open filter again, clear text, and press Enter.
    press(&mut app, Key::Char('/'));
    // Backspace to clear the existing text.
    press(&mut app, Key::Backspace);
    assert!(app.filter_text.is_empty());
    press(&mut app, Key::Enter);
    assert!(!app.has_filter());
    assert_eq!(app.visible_package_count(), 2);
}

#[test]
fn test_update_page_size() {
    let mut app = App::new();
    app.update_page_size(40);
    assert_eq!(app.page_size, 35); // 40 - 5
}

#[test]
fn test_update_page_size_small_terminal() {
    let mut app = App::new();
    app.update_page_size(3);
    assert_eq!(app.page_size, 0); // saturating_sub(5) from 3
}

#[test]
fn test_slash_only_activates_in_idle() {
    let mut app = app_with_named_packages(&["alpha"]);
    app.state = AppState::Running;
    press(&mut app, Key::Char('/'));
    assert!(!app.filter_active);
}

#[test]
fn test_filter_preserves_text_after_apply() {
    let mut app = app_with_named_packages(&["alpha", "beta"]);
    press(&mut app, Key::Char('/'));
    press(&mut app, Key::Char('a'));
    press(&mut app, Key::Enter);
    // Filter text should persist after apply (user can see what's filtered).
    assert_eq!(app.filter_text, "a");
    assert!(!app.filter_active);
}

#[test]
fn test_reactivate_filter_keeps_existing_text() {
    let mut app = app_with_named_packages(&["alpha", "beta"]);
    press(&mut app, Key::Char('/'));
    press(&mut app, Key::Char('a'));
    press(&mut app, Key::Enter);
    assert_eq!(app.filter_text, "a");
    // Reactivate filter -- text should still be 'a'.
    press(&mut app, Key::Char('/'));
    assert!(app.filter_active);
    assert_eq!(app.filter_text, "a");
}

#[test]
fn test_theme_name_default() {
    let app = App::new();
    assert_eq!(app.theme_name(), "dark");
    assert_eq!(app.theme_index, 0);
}

#[test]
fn test_cycle_theme_advances_index() {
    let mut app = App::new();
    let names = THEME_NAMES;
    assert_eq!(app.theme_index, 0);

    app.cycle_theme();
    assert_eq!(app.theme_index, 1);
    assert_eq!(app.theme_name(), names[1]);
}

#[test]
fn test_cycle_theme_wraps_around() {
    let mut app = App::new();
    let count = THEME_NAMES.len();
    // Cycle through all themes to wrap back to 0.
    for _ in 0..count {
        app.cycle_theme();
    }
    assert_eq!(app.theme_index, 0);
    assert_eq!(app.theme_name(), "dark");
}

#[test]
fn test_t_key_cycles_theme_in_idle() {
    let mut app = App::new();
    assert_eq!(app.theme_index, 0);

    press(&mut app, Key::Char('t'));
    assert_eq!(app.theme_index, 1);

    press(&mut app, Key::Char('t'));
    assert_eq!(app.theme_index, 2);
}

#[test]
fn test_t_key_ignored_when_not_idle() {
    let mut app = App::new();
    app.state = AppState::Running;
    press(&mut app, Key::Char('t'));
    assert_eq!(
        app.theme_index, 0,
        "Theme should not cycle in Running state"
    );
}

#[test]
fn test_theme_index_set_nonzero() {
    let mut app = App::new();
    let names = THEME_NAMES;
    // Simulate --theme flag setting index to last theme.
    let last = names.len() - 1;
    app.theme_index = last;
    assert_eq!(app.theme_name(), names[last]);

    // Cycling should wrap to 0.
    app.cycle_theme();
    assert_eq!(app.theme_index, 0);
    assert_eq!(app.theme_name(), "dark");
}
