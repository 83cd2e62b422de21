//! `remove`: disable tools on this machine and remove their symlinks.

use vstd::prelude::*;
use crate::registry::{Registry, Tool};
use crate::text::{contains_str, views};

verus! {

/// What to do with one tool named for removal.
#[derive(Clone, Copy, PartialEq, Eq, Structural, Debug)]
pub enum RemovalStep {
    /// It is not enabled: report it and go on.
    NotEnabled,
    /// It is enabled but the registry no longer declares it: report it and
    /// disable it.
    NotInRegistry,
    /// Remove its links, then disable it.
    Remove,
}

/// Decides what to do with the tool `name`.
pub fn removal_step(enabled: &Vec<String>, reg: &Registry, name: &str) -> (r: RemovalStep)
    requires
        reg.wf(),
    ensures
        r == (if !views(enabled@).contains(name@) {
            RemovalStep::NotEnabled
        } else if !reg.tools().contains_key(name@) {
            RemovalStep::NotInRegistry
        } else {
            RemovalStep::Remove
        }),
{
    let found = contains_str(enabled, name);
    if !found {
        RemovalStep::NotEnabled
    } else if !reg.contains_key(name) {
        RemovalStep::NotInRegistry
    } else {
        RemovalStep::Remove
    }
}

/// Whether removing `tool` warrants the warning that manual cleanup may be
/// needed: it has a setup script and no teardown script.
pub fn warns_without_unscript(tool: &Tool) -> (r: bool)
    ensures
        r == (tool.script is Some && tool.unscript is None),
{
    tool.script.is_some() && tool.unscript.is_none()
}

/// The exit code of `remove`: 2 when some link was skipped, 0 otherwise.
pub fn remove_exit_code(any_skipped: bool) -> (r: u8)
    ensures
        r == (if any_skipped { 2u8 } else { 0u8 }),
{
    if any_skipped {
        2
    } else {
        0
    }
}

} // verus!
