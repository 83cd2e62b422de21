//! The command line, as plain values: global flags and the subcommand.

use vstd::prelude::*;
use crate::style::IconMode;

verus! {

/// Global flags and the chosen subcommand.
pub struct Cli {
    /// Preview changes without touching the filesystem.
    pub dry_run: bool,
    /// Verbose logging.
    pub verbose: bool,
    /// Overrides the dotfiles root recorded in the config.
    pub dotfiles: Option<String>,
    /// Which icon set to print.
    pub icons: IconMode,
    /// The subcommand.
    pub command: Cmd,
}

/// The subcommands.
pub enum Cmd {
    /// Create the config for this machine.
    Init { force: bool },
    /// Enable tools on this machine, optionally applying them at once.
    Add { tools: Vec<String>, apply: bool },
    /// Disable tools on this machine and remove their symlinks.
    Remove { tools: Vec<String> },
    /// Create or refresh symlinks for enabled tools (or the listed ones).
    Apply { tools: Vec<String>, force: bool },
    /// Show which symlinks are in sync.
    Status,
    /// List all tools of the registry.
    List,
    /// Health checks: environment, links, and per-tool doctor scripts for
    /// the listed tools (or every enabled tool with `all`).
    Doctor { tools: Vec<String>, no_generic: bool, all: bool },
    /// Show what `apply` would change: registry drift, link drift and,
    /// with `content`, the content of conflicting files.
    Diff { tools: Vec<String>, content: bool },
}

} // verus!
