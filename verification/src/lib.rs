//! Git worktree management: the logic behind the `wt` command.
//!
//! A worktree of repository `<repo>` made for a slug lives beside the root
//! worktree in `<repo>-<slug>`, on a branch named after the slug (with an
//! optional prefix). The commands are planned here; running git and touching
//! the filesystem is left to the program around the library.

pub mod cli;
pub mod commands;
pub mod config;
pub mod context;
pub mod error;
pub mod git;
pub mod paths;
pub mod text;
