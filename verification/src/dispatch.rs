//! Which core command the terminal interface starts for a command name, and
//! with which options.
use vstd::prelude::*;
use crate::text::{append_str, from_chars, str_eq};
use crate::tui::CommandOpts;

verus! {

/// The commands that the interface knows but does not run.
pub open spec fn unwired_command(name: Seq<char>) -> bool {
    ||| name == "bootstrap"@
    ||| name == "build"@
    ||| name == "clean"@
    ||| name == "health"@
    ||| name == "list"@
    ||| name == "run"@
    ||| name == "version"@
}

pub open spec fn exec_refusal() -> Seq<char> {
    "exec requires a command argument (not yet supported in TUI)"@
}

pub open spec fn unwired_refusal(name: Seq<char>) -> Seq<char> {
    name + " is not yet wired for TUI execution"@
}

pub open spec fn unknown_refusal(name: Seq<char>) -> Seq<char> {
    "unknown command: "@ + name
}

/// What dispatching `name` comes to: the options the command is run with
/// (one package at a time; `publish` as a dry run), or the reason it is
/// refused.
pub open spec fn dispatch_spec(name: Seq<char>) -> Result<CommandOpts, Seq<char>> {
    if name == "analyze"@ {
        Ok(CommandOpts::Analyze { concurrency: 1, fatal_warnings: false, fatal_infos: false, no_fatal: false })
    } else if name == "format"@ {
        Ok(CommandOpts::Format { concurrency: 1, set_exit_if_changed: false, line_length: None })
    } else if name == "test"@ {
        Ok(
            CommandOpts::Test {
                concurrency: 1,
                fail_fast: false,
                coverage: false,
                update_goldens: false,
                no_run: false,
            },
        )
    } else if name == "publish"@ {
        Ok(CommandOpts::Publish { concurrency: 1, dry_run: true })
    } else if name == "exec"@ {
        Err(exec_refusal())
    } else if unwired_command(name) {
        Err(unwired_refusal(name))
    } else {
        Err(unknown_refusal(name))
    }
}

fn is_unwired(name: &str) -> (r: bool)
    ensures
        r == unwired_command(name@),
{
    str_eq(name, "bootstrap") || str_eq(name, "build") || str_eq(name, "clean") || str_eq(name, "health")
        || str_eq(name, "list") || str_eq(name, "run") || str_eq(name, "version")
}

/// The options with which the interface runs command `name`, or why it
/// does not run it. `format` shows its output (`--output show`), `test`
/// passes no extra arguments and no ordering seed.
pub fn dispatch_command(name: &str) -> (r: Result<CommandOpts, String>)
    ensures
        match r {
            Ok(o) => dispatch_spec(name@) == Ok::<CommandOpts, Seq<char>>(o),
            Err(e) => dispatch_spec(name@) == Err::<CommandOpts, Seq<char>>(e@),
        },
{
    if str_eq(name, "analyze") {
        Ok(CommandOpts::Analyze { concurrency: 1, fatal_warnings: false, fatal_infos: false, no_fatal: false })
    } else if str_eq(name, "format") {
        Ok(CommandOpts::Format { concurrency: 1, set_exit_if_changed: false, line_length: None })
    } else if str_eq(name, "test") {
        Ok(
            CommandOpts::Test {
                concurrency: 1,
                fail_fast: false,
                coverage: false,
                update_goldens: false,
                no_run: false,
            },
        )
    } else if str_eq(name, "publish") {
        Ok(CommandOpts::Publish { concurrency: 1, dry_run: true })
    } else if str_eq(name, "exec") {
        let mut out: Vec<char> = Vec::new();
        append_str(&mut out, "exec requires a command argument (not yet supported in TUI)");
        Err(from_chars(out.as_slice()))
    } else if is_unwired(name) {
        let mut out: Vec<char> = Vec::new();
        append_str(&mut out, name);
        append_str(&mut out, " is not yet wired for TUI execution");
        Err(from_chars(out.as_slice()))
    } else {
        let mut out: Vec<char> = Vec::new();
        append_str(&mut out, "unknown command: ");
        append_str(&mut out, name);
        Err(from_chars(out.as_slice()))
    }
}

} // verus!
