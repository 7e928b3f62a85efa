//! The shell's prompt-facing state: the user's name, the working directory
//! shown in the prompt, and whether the last dispatched command succeeded.
//!
//! The prompt loop itself (rendering, reading lines) is I/O and lives in
//! the surrounding program; it reads and mutates this state through the
//! methods here.

use vstd::prelude::*;

use crate::commands::StatusCode;
use crate::path::Path;

verus! {

pub struct Shell {
    user: String,
    cwd: Path,
    success: bool,
}

impl Shell {
    pub closed spec fn user_view(&self) -> Seq<char> {
        self.user@
    }

    pub closed spec fn cwd_path(&self) -> Path {
        self.cwd
    }

    pub closed spec fn last_succeeded(&self) -> bool {
        self.success
    }

    /// A fresh shell for the named user at the given working directory;
    /// no command has failed yet.
    pub fn new(user: String, cwd: Path) -> (r: Shell)
        ensures
            r.user_view() == user@,
            r.cwd_path() == cwd,
            r.last_succeeded(),
    {
        Shell { user, cwd, success: true }
    }

    /// The name of the user the shell runs for.
    pub fn user_name(&self) -> (r: &String)
        ensures
            r@ == self.user_view(),
    {
        &self.user
    }

    /// Whether the last dispatched command succeeded; a fresh shell reports
    /// success.
    pub fn succeeded(&self) -> (r: bool)
        ensures
            r == self.last_succeeded(),
    {
        self.success
    }

    /// Mutable access to the working directory shown in the prompt.
    pub fn working_directory(&mut self) -> (r: &mut Path)
        ensures
            *r == old(self).cwd_path(),
            final(self).cwd_path() == *final(r),
            final(self).user_view() == old(self).user_view(),
            final(self).last_succeeded() == old(self).last_succeeded(),
    {
        &mut self.cwd
    }

    /// Records a dispatch outcome: a finished command sets the success flag
    /// from its status, while "not found" leaves the flag as it was (it is
    /// reported to the user, not counted as a failed command).
    pub fn record_outcome(&mut self, outcome: Option<StatusCode>)
        ensures
            final(self).cwd_path() == old(self).cwd_path(),
            final(self).user_view() == old(self).user_view(),
            final(self).last_succeeded() == match outcome {
                Option::Some(code) => code.code == 0,
                Option::None => old(self).last_succeeded(),
            },
    {
        match outcome {
            Option::Some(code) => {
                self.success = code.is_success();
            },
            Option::None => {},
        }
    }
}


} // verus!
