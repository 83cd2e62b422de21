//! `init`: record this machine's dotfiles root.

use vstd::prelude::*;
use crate::error::{Error, ErrorView};
use crate::paths::{absolutize, absolutized};
use crate::text::owned;
use crate::os::Os;
use crate::commands::util::path_outcome;

verus! {

/// The directory that `init` would record: the flag, made absolute against
/// `cwd`; otherwise `cwd` itself.
pub open spec fn candidate_root_spec(explicit: Option<Seq<char>>, cwd: Seq<char>, os: Os) -> Seq<char> {
    match explicit {
        Some(p) => absolutized(p, cwd, os),
        None => cwd,
    }
}

/// The directory that `init` would record, whose registry file the caller
/// then looks for.
pub fn candidate_root(explicit: Option<&str>, cwd: &str, os: Os) -> (r: String)
    ensures
        r@ == candidate_root_spec(
            match explicit {
                Some(p) => Some(p@),
                None => None,
            },
            cwd@,
            os,
        ),
{
    match explicit {
        Some(p) => absolutize(p, cwd, os),
        None => owned(cwd),
    }
}

/// The dotfiles root for a new config: the candidate directory when it
/// holds a registry (`holds_registry`); otherwise, for an explicit path,
/// the error that it holds no registry, and without one, the error that
/// the root cannot be determined.
pub open spec fn init_root_spec(
    explicit: Option<Seq<char>>,
    cwd: Seq<char>,
    holds_registry: bool,
    os: Os,
) -> Result<Seq<char>, ErrorView> {
    let root = candidate_root_spec(explicit, cwd, os);
    if holds_registry {
        Ok(root)
    } else if explicit is Some {
        Err(ErrorView::RegistryMissing { path: root })
    } else {
        Err(ErrorView::DotfilesRootUnknown)
    }
}

/// Resolves the dotfiles root for `init`: the explicit path (made absolute
/// against the working directory `cwd`) or else `cwd`, accepted only when
/// it holds a registry file (`holds_registry`, which the caller found out
/// for [`candidate_root`]).
pub fn resolve_dotfiles_root(explicit: Option<&str>, cwd: &str, holds_registry: bool, os: Os) -> (r: Result<
    String,
    Error,
>)
    ensures
        path_outcome(r) == init_root_spec(
            match explicit {
                Some(p) => Some(p@),
                None => None,
            },
            cwd@,
            holds_registry,
            os,
        ),
{
    let root = candidate_root(explicit, cwd, os);
    if holds_registry {
        Ok(root)
    } else if explicit.is_some() {
        Err(Error::RegistryMissing { path: root })
    } else {
        Err(Error::DotfilesRootUnknown)
    }
}

} // verus!
