//! Progress events that a running command reports to its front end.
use vstd::prelude::*;
use std::time::Duration;

verus! {

/// What a running command reports as it goes.
#[derive(Debug)]
pub enum Event {
    /// The command started on a number of packages.
    CommandStarted { command: String, package_count: usize },
    /// Work on a package started.
    PackageStarted { name: String },
    /// Work on a package ended.
    PackageFinished { name: String, success: bool, duration: Duration },
    /// A line of a package's output.
    PackageOutput { name: String, line: String, is_stderr: bool },
    /// Overall progress.
    Progress { completed: usize, total: usize, message: String },
    /// A warning.
    Warning(String),
    /// A note.
    Info(String),
    /// The command ended.
    CommandFinished { command: String, duration: Duration },
}

} // verus!
