//! Mapping the termination of an external child process to a shell result.
//!
//! Spawning the process and draining its output streams is I/O and happens
//! in the surrounding program; it hands the observed exit status in here.

use vstd::prelude::*;

use crate::errors::ShellError;

verus! {

/// Exit code reported when a resolved executable terminated without
/// supplying a code (it was killed by a signal): the conventional value for
/// "found but not executable". The path was already resolved, so "not
/// found" (127) would be wrong.
pub const NO_EXIT_CODE: i32 = 126;

/// Maps a child process's exit status to the shell's result: a successful
/// status is Ok, a nonzero status is `ExecutionFailed` carrying the exit
/// code, and a missing code is reported as `NO_EXIT_CODE`.
pub fn map_exit_status(success: bool, code: Option<i32>) -> (r: Result<(), ShellError>)
    ensures
        success ==> r == Result::<(), ShellError>::Ok(()),
        !success ==> r == Result::<(), ShellError>::Err(
            ShellError::ExecutionFailed(
                match code {
                    Option::Some(c) => c,
                    Option::None => NO_EXIT_CODE,
                },
            ),
        ),
{
    if success {
        Ok(())
    } else {
        match code {
            Option::Some(c) => Err(ShellError::ExecutionFailed(c)),
            Option::None => Err(ShellError::ExecutionFailed(NO_EXIT_CODE)),
        }
    }
}

} // verus!
