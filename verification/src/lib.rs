//! pesh: a small POSIX-style shell.
//!
//! The library holds the shell's logic: the rewriting of redirection operators,
//! word splitting, the recognition of builtins and of redirections, the text the
//! builtins print, the prompt theme, and tab completion. Running programs, files,
//! the terminal and the environment are left to the binary.
pub mod cli;
pub mod error;
pub mod eval;
pub mod text;
