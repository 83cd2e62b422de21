//! Helpers shared by the subcommands.

use vstd::prelude::*;
use crate::config::Config;
use crate::error::{Error, ErrorView};
use crate::paths::{absolutize, absolutized};
use crate::registry::Registry;
use crate::os::{Os, Env, env_home, expand_tilde, tilde_expanded};
use crate::text::seq_join;

verus! {

/// The file name of the registry at the root of a dotfiles repository.
pub const REGISTRY_FILE: &'static str = "dotfm.toml";

/// A recorded dotfiles root as a usable path: a leading `~` becomes the home
/// directory `home` (an error without one); any other root is kept.
pub open spec fn recorded_root(recorded: Seq<char>, home: Option<Seq<char>>) -> Result<Seq<char>, ErrorView> {
    match tilde_expanded(recorded, home) {
        Ok(p) => Ok(p),
        Err(_) => Err(ErrorView::HomeUnknown),
    }
}

/// The dotfiles root in effect: the `--dotfiles` flag, made absolute
/// against `cwd`, wins; otherwise the root recorded in the config, with a
/// leading `~` replaced by the home directory `home`.
pub open spec fn effective_root_spec(
    recorded: Option<Seq<char>>,
    flag: Option<Seq<char>>,
    cwd: Seq<char>,
    home: Option<Seq<char>>,
    os: Os,
) -> Result<Seq<char>, ErrorView> {
    match flag {
        Some(p) => Ok(absolutized(p, cwd, os)),
        None => match recorded {
            Some(r) => recorded_root(r, home),
            None => Err(ErrorView::DotfilesRootUnknown),
        },
    }
}

/// The value of a path outcome.
pub open spec fn path_outcome(r: Result<String, Error>) -> Result<Seq<char>, ErrorView> {
    match r {
        Ok(s) => Ok(s@),
        Err(e) => Err(e@),
    }
}

/// Makes a recorded dotfiles root usable: a leading `~` becomes the home
/// directory of `env`.
pub fn expand_recorded_root(recorded: &str, env: &Env) -> (r: Result<String, Error>)
    ensures
        path_outcome(r) == recorded_root(recorded@, env_home(env@)),
{
    let home = env.home();
    let out = match home {
        Some(h) => expand_tilde(recorded, Some(h.as_str())),
        None => expand_tilde(recorded, None),
    };
    match out {
        Ok(p) => Ok(p),
        Err(_) => Err(Error::HomeUnknown),
    }
}

/// Resolves the dotfiles root: the `--dotfiles` flag (`override_`, made
/// absolute against the working directory `cwd`) wins over the root
/// recorded in the config, whose leading `~` is expanded against `env`.
/// Paths are read by the rules of `os`.
pub fn effective_root(cfg: &Config, override_: Option<&str>, cwd: &str, env: &Env, os: Os) -> (r: Result<String, Error>)
    ensures
        path_outcome(r) == effective_root_spec(
            cfg.root_spec(),
            match override_ {
                Some(p) => Some(p@),
                None => None,
            },
            cwd@,
            env_home(env@),
            os,
        ),
{
    match override_ {
        Some(p) => Ok(absolutize(p, cwd, os)),
        None => match cfg.dotfiles_root() {
            Some(r) => expand_recorded_root(r.as_str(), env),
            None => Err(Error::DotfilesRootUnknown),
        },
    }
}

/// The registry's tool names in increasing order, joined by `, `.
pub fn sorted_keys(reg: &Registry) -> (r: String)
    requires
        reg.wf(),
    ensures
        r@ == seq_join(reg.key_seq(), ", "@),
{
    reg.sorted_names_text()
}

} // verus!
