//! Execution results and the jail backend handle.
//!
//! A backend runs one piece of code in a sandbox and reports what the child
//! process wrote and how it exited. The process management itself — spawn,
//! pipes, wall-clock timeout — happens outside the library; the library states
//! how the observed pieces are assembled into a result.

use vstd::prelude::*;

verus! {

/// Result of executing code in a sandbox.
#[derive(Debug, Clone)]
pub struct ExecutionResult {
    /// Exit code of the process (0 = success).
    pub exit_code: i32,
    /// Captured stdout.
    pub stdout: String,
    /// Captured stderr.
    pub stderr: String,
}

/// Reserved exit code for "no exit code available", e.g. killed by a signal.
pub const NO_EXIT_CODE: i32 = -1;

/// Backend that delegates isolation to an external jail wrapper executable.
///
/// The wrapper is spawned with stdin, stdout and stderr piped; the runner that
/// owns the child process lives outside the library and assembles the result
/// through [`JailBackend::result_from_wait`].
#[derive(Debug, Clone)]
pub struct JailBackend {
}

impl JailBackend {
    /// Create a new jail backend.
    pub fn new() -> (r: Self) {
        JailBackend {  }
    }

    /// Assemble the execution result once the child has been waited on.
    ///
    /// A child that exited without an exit code (killed by a signal) is
    /// reported with the reserved code `-1`.
    pub fn result_from_wait(exit_code: Option<i32>, stdout: String, stderr: String) -> (r:
        ExecutionResult)
        ensures
            r.exit_code == (match exit_code {
                Some(c) => c,
                None => NO_EXIT_CODE,
            }),
            r.stdout == stdout,
            r.stderr == stderr,
    {
        let code = match exit_code {
            Some(c) => c,
            None => NO_EXIT_CODE,
        };
        ExecutionResult { exit_code: code, stdout, stderr }
    }
}

} // verus!
