//! The settings of the process runner that runs a command in each package.
use vstd::prelude::*;

verus! {

/// Runs shell commands in package directories, a bounded number at a time,
/// optionally stopping after the first failure.
#[derive(Debug, Clone, Copy)]
pub struct ProcessRunner {
    concurrency: usize,
    fail_fast: bool,
}

impl ProcessRunner {
    /// The largest number of processes at a time.
    pub closed spec fn concurrency_spec(&self) -> usize {
        self.concurrency
    }

    /// Whether work stops after the first failure.
    pub closed spec fn fail_fast_spec(&self) -> bool {
        self.fail_fast
    }

    /// A runner with the given concurrency (at least one) and fail-fast
    /// setting.
    pub fn new(concurrency: usize, fail_fast: bool) -> (r: Self)
        ensures
            r.concurrency_spec() == (if concurrency >= 1 {
                concurrency
            } else {
                1
            }),
            r.fail_fast_spec() == fail_fast,
    {
        ProcessRunner {
            concurrency: if concurrency >= 1 {
                concurrency
            } else {
                1
            },
            fail_fast,
        }
    }

    /// The largest number of processes at a time.
    pub fn concurrency(&self) -> (r: usize)
        ensures
            r == self.concurrency_spec(),
    {
        self.concurrency
    }

    /// Whether work stops after the first failure.
    pub fn fail_fast(&self) -> (r: bool)
        ensures
            r == self.fail_fast_spec(),
    {
        self.fail_fast
    }

    /// Whether a package's command should still start, given whether one
    /// has failed already: not after a failure when failing fast.
    pub fn should_start(&self, failed_so_far: bool) -> (r: bool)
        ensures
            r == !(self.fail_fast_spec() && failed_so_far),
    {
        !(self.fail_fast && failed_so_far)
    }
}

} // verus!
