//! The ways a `wt` command refuses or fails, and what it says then.

use vstd::prelude::*;
use vstd::string::*;

use crate::text::{join, join_strings, views};

verus! {

/// Why a command of `wt` stops.
pub enum WtError {
    /// `wt new` was given a slug with a `/` in it.
    SlugContainsSlash { slug: String },
    /// The directory of the new worktree is already there.
    DirectoryExists { path: String },
    /// Neither `origin/HEAD` nor any of the usual branch names was found.
    NoMainBranch,
    /// The listing named no worktree with a checkout and git gave no top level.
    NoRootWorktree,
    /// `wt config init` found a configuration in place.
    ConfigExists { path: String },
    /// No worktree of the repository sits where the slug says.
    NoWorktreeFound { path: String },
    /// Some of the worktrees of `wt remove` stay; one line per failure.
    RemovalsFailed { failures: Vec<String> },
}

impl WtError {
    /// The text that the command prints for this error.
    pub open spec fn spec_message(&self) -> Seq<char> {
        match self {
            WtError::SlugContainsSlash { slug } => "slug must not contain '/' — got '"@ + slug@ + "'"@,
            WtError::DirectoryExists { path } => "directory already exists: "@ + path@,
            WtError::NoMainBranch =>
                "could not detect main branch: no origin/HEAD and none of main/master/trunk found at origin"@,
            WtError::NoRootWorktree => "could not determine root worktree path"@,
            WtError::ConfigExists { path } => ".wtconfig.toml already exists at "@ + path@,
            WtError::NoWorktreeFound { path } => "no worktree found at "@ + path@,
            WtError::RemovalsFailed { failures } =>
                "some worktrees could not be removed:\n  "@ + join(views(failures@), "\n  "@),
        }
    }

    /// The text that the command prints for this error.
    pub fn message(&self) -> (m: String)
        ensures
            m@ == self.spec_message(),
    {
        match self {
            WtError::SlugContainsSlash { slug } => {
                let mut m = String::from_str("slug must not contain '/' — got '");
                m.append(slug.as_str());
                m.append("'");
                m
            },
            WtError::DirectoryExists { path } => {
                let mut m = String::from_str("directory already exists: ");
                m.append(path.as_str());
                m
            },
            WtError::NoMainBranch => String::from_str(
                "could not detect main branch: no origin/HEAD and none of main/master/trunk found at origin",
            ),
            WtError::NoRootWorktree => String::from_str("could not determine root worktree path"),
            WtError::ConfigExists { path } => {
                let mut m = String::from_str(".wtconfig.toml already exists at ");
                m.append(path.as_str());
                m
            },
            WtError::NoWorktreeFound { path } => {
                let mut m = String::from_str("no worktree found at ");
                m.append(path.as_str());
                m
            },
            WtError::RemovalsFailed { failures } => {
                let mut m = String::from_str("some worktrees could not be removed:\n  ");
                let lines = join_strings(failures, "\n  ");
                m.append(lines.as_str());
                m
            },
        }
    }
}

} // verus!
