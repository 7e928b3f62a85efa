//! Error taxonomy of the shell core.
//!
//! Every error here is recoverable at the dispatch boundary except
//! `MissingEnvironmentVariable`, which aborts shell construction.

use vstd::prelude::*;

use crate::environment::EnvVariable;

verus! {

/// The outcomes a shell operation can fail with.
#[derive(Debug, Clone, Copy, PartialEq, Eq, Structural)]
pub enum ShellError {
    /// A raw string did not resolve to an existing filesystem location.
    PathResolutionError,
    /// A required variable was absent from the host process environment
    /// at shell construction; fatal to construction.
    MissingEnvironmentVariable(EnvVariable),
    /// A change-directory target was invalid; the current directory is
    /// left unchanged.
    DirectoryResolutionError,
    /// Back-history was empty when navigating backwards.
    NoPreviousDirectory,
    /// Forward-history was empty when navigating forwards.
    NoNextDirectory,
    /// The host process rejected a state update for the named variable.
    EnvironmentSyncError(EnvVariable),
    /// A resolved executable could not be spawned (it vanished or became
    /// non-executable between resolution and spawn).
    SpawnError,
    /// A child process ran and returned a nonzero status.
    ExecutionFailed(i32),
}

impl ShellError {
    /// A plain-text rendering of the error, for the prompt loop to print.
    pub fn message(&self) -> (r: String)
        ensures
            r@.len() > 0,
            self is PathResolutionError ==> r@ == "failed to resolve path"@,
            self is MissingEnvironmentVariable ==> r@ == "missing environment variable"@,
            self is DirectoryResolutionError ==> r@ == "failed to resolve directory"@,
            self is NoPreviousDirectory ==> r@ == "no previous directory"@,
            self is NoNextDirectory ==> r@ == "no next directory"@,
            self is EnvironmentSyncError ==> r@ == "failed to update the process environment"@,
            self is SpawnError ==> r@ == "failed to spawn process"@,
            self is ExecutionFailed ==> r@ == "command failed"@,
    {
        let r = match self {
            ShellError::PathResolutionError => "failed to resolve path",
            ShellError::MissingEnvironmentVariable(_) => "missing environment variable",
            ShellError::DirectoryResolutionError => "failed to resolve directory",
            ShellError::NoPreviousDirectory => "no previous directory",
            ShellError::NoNextDirectory => "no next directory",
            ShellError::EnvironmentSyncError(_) => "failed to update the process environment",
            ShellError::SpawnError => "failed to spawn process",
            ShellError::ExecutionFailed(_) => "command failed",
        };
        proof {
            reveal_strlit("failed to resolve path");
            reveal_strlit("missing environment variable");
            reveal_strlit("failed to resolve directory");
            reveal_strlit("no previous directory");
            reveal_strlit("no next directory");
            reveal_strlit("failed to update the process environment");
            reveal_strlit("failed to spawn process");
            reveal_strlit("command failed");
        }
        r.to_owned()
    }
}

} // verus!
