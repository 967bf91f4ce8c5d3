//! The command line of `wt`, as the library sees it once parsed.

use vstd::prelude::*;

verus! {

/// A parsed command line.
pub struct Cli {
    pub command: Commands,
}

/// The commands of `wt`.
pub enum Commands {
    /// Create a new worktree.
    New {
        /// Slug for the worktree (used in directory name and branch).
        slug: String,
        /// Branch prefix segments (e.g. "chnn" or "team/chnn"), overrides config.
        branch_prefix: Option<String>,
        /// Files to symlink from the root worktree, overrides config.
        symlink_files: Option<Vec<String>>,
        /// Print what would be done without making changes.
        dry_run: bool,
        /// Accepted for the shell wrapper, which authors a prompt.
        prompt: bool,
        /// Accepted for the shell wrapper, which passes it on with the prompt.
        dangerously_skip_permissions: bool,
    },
    /// Print the shell function for sourcing in .zshrc/.bashrc.
    ShellInit,
    /// List worktree slugs.
    List { dry_run: bool },
    /// Remove one or more worktrees.
    Remove { slugs: Vec<String>, dry_run: bool },
    /// Configuration management.
    Config { action: ConfigAction },
}

/// The configuration commands.
pub enum ConfigAction {
    /// Initialize a .wtconfig.toml in the root worktree.
    Init { dry_run: bool },
}

} // verus!
