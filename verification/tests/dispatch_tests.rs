use melos_rs::dispatch::dispatch_command;
use melos_rs::tui::CommandOpts;

#[test]
fn dispatch_runs_ready_commands_with_their_options() {
    assert_eq!(
        dispatch_command("analyze"),
        Ok(CommandOpts::Analyze { concurrency: 1, fatal_warnings: false, fatal_infos: false, no_fatal: false })
    );
    assert_eq!(
        dispatch_command("format"),
        Ok(CommandOpts::Format { concurrency: 1, set_exit_if_changed: false, line_length: None })
    );
    assert_eq!(
        dispatch_command("test"),
        Ok(CommandOpts::Test { concurrency: 1, fail_fast: false, coverage: false, update_goldens: false, no_run: false })
    );
    assert_eq!(dispatch_command("publish"), Ok(CommandOpts::Publish { concurrency: 1, dry_run: true }));
}

#[test]
fn dispatch_refuses_exec_without_arguments() {
    assert_eq!(
        dispatch_command("exec"),
        Err("exec requires a command argument (not yet supported in TUI)".to_string())
    );
}

#[test]
fn dispatch_refuses_unwired_commands() {
    for name in ["bootstrap", "build", "clean", "health", "list", "run", "version"] {
        assert_eq!(dispatch_command(name), Err(format!("{name} is not yet wired for TUI execution")));
    }
}

#[test]
fn dispatch_refuses_unknown_commands() {
    assert_eq!(dispatch_command("deploy"), Err("unknown command: deploy".to_string()));
    assert_eq!(dispatch_command(""), Err("unknown command: ".to_string()));
}
