//! Prompt themes.
pub mod posix;
