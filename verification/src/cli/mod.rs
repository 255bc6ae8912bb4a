//! The shell's front end: its command-line options, tab completion and prompt
//! theme.
pub mod completion;
pub mod theme;

use vstd::prelude::*;

verus! {

/// The shell's command-line options.
#[derive(Debug)]
pub struct CliArgs {
    /// A command to run, after which the shell exits; without it the shell is
    /// interactive.
    pub command: Option<String>,
    /// Use the plain POSIX prompt theme.
    pub posix: bool,
    /// Print debug information.
    pub debug: bool,
}

impl CliArgs {
    /// Whether the shell reads commands from the user: it does when no command
    /// was given to run.
    pub fn is_interactive(&self) -> (r: bool)
        ensures
            r == (self.command is None),
    {
        self.command.is_none()
    }
}

} // verus!
