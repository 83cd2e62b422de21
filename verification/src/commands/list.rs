//! `list`: every tool of the registry, marking the enabled ones.

use vstd::prelude::*;
use crate::config::Config;
use crate::error::{Error, ErrorView};
use crate::style::Icons;
use crate::text::{owned, concat2, concat3, pad_right, padded};
use crate::commands::util::{path_outcome, recorded_root, expand_recorded_root};
use crate::os::{Env, env_home};

verus! {

/// The dotfiles root for `list`: the flag; else the config's recorded root,
/// a leading `~` expanded to `home` (an error when it has none); else, without a config, the working
/// directory when it holds a registry.
pub open spec fn list_root_spec(
    flag: Option<Seq<char>>,
    config: Option<Option<Seq<char>>>,
    cwd: Seq<char>,
    cwd_has_registry: bool,
    home: Option<Seq<char>>,
) -> Result<Seq<char>, ErrorView> {
    match flag {
        Some(p) => Ok(p),
        None => match config {
            Some(Some(r)) => recorded_root(r, home),
            Some(None) => Err(ErrorView::RootNotSet),
            None => if cwd_has_registry {
                Ok(cwd)
            } else {
                Err(ErrorView::NoRootSupplied)
            },
        },
    }
}

/// Resolves the dotfiles root for `list`, which works without a config.
pub fn list_root(flag: Option<&str>, cfg: Option<&Config>, cwd: &str, cwd_has_registry: bool, env: &Env) -> (r: Result<String, Error>)
    ensures
        path_outcome(r) == list_root_spec(
            match flag {
                Some(p) => Some(p@),
                None => None,
            },
            match cfg {
                Some(c) => Some(c.root_spec()),
                None => None,
            },
            cwd@,
            cwd_has_registry,
            env_home(env@),
        ),
{
    match flag {
        Some(p) => Ok(owned(p)),
        None => match cfg {
            Some(c) => match c.dotfiles_root() {
                Some(r) => expand_recorded_root(r.as_str(), env),
                None => Err(Error::RootNotSet),
            },
            None => if cwd_has_registry {
                Ok(owned(cwd))
            } else {
                Err(Error::NoRootSupplied)
            },
        },
    }
}

/// One line of `list`: the mark, the name left-aligned in 16 columns, the
/// description, and a note when the tool is not meant for this OS.
pub open spec fn list_line_spec(enabled: bool, name: Seq<char>, description: Seq<char>, os_ok: bool, icons: Icons) -> Seq<char> {
    (if enabled { icons.enabled@ } else { icons.disabled@ }) + " "@ + padded(name, 16) + " "@ + description + (if os_ok {
        ""@
    } else {
        " (not on this OS)"@
    })
}

/// One line of `list`; a missing description prints as empty.
pub fn list_line(enabled: bool, name: &str, description: Option<&str>, os_ok: bool, icons: Icons) -> (r: String)
    ensures
        r@ == list_line_spec(
            enabled,
            name@,
            match description {
                Some(d) => d@,
                None => ""@,
            },
            os_ok,
            icons,
        ),
{
    let mark = if enabled { icons.enabled } else { icons.disabled };
    let desc = match description {
        Some(d) => d,
        None => "",
    };
    let note = if os_ok { "" } else { " (not on this OS)" };
    let padded_name = pad_right(name, 16);
    let a = concat3(mark, " ", padded_name.as_str());
    let b = concat3(a.as_str(), " ", desc);
    concat2(b.as_str(), note)
}

} // verus!
