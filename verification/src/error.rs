//! The library's errors and their messages.

use vstd::prelude::*;
use crate::text::{concat2, concat3, owned};

verus! {

/// Failures of the library's operations.
#[derive(Debug, Clone, PartialEq, Eq)]
pub enum Error {
    /// No config file at `path`.
    ConfigMissing { path: String },
    /// A config file already exists at `path` and overwriting was not asked for.
    ConfigExists { path: String },
    /// The dotfiles root `path` holds no registry file.
    RegistryMissing { path: String },
    /// Neither a flag nor the config names the dotfiles root.
    DotfilesRootUnknown,
    /// `name` is not declared in the registry; `available` lists what is.
    UnknownTool { name: String, available: String },
    /// `name` is not in this machine's enabled list.
    NotEnabled { name: String },
    /// `name` has no configuration for the current OS.
    UnsupportedOs { name: String },
    /// `path` exists and is not a symlink managed by the tool.
    DestinationOccupied { path: String },
    /// The config file at `path` is not valid TOML; `detail` says why.
    ConfigParse { path: String, detail: String },
    /// The config file records no dotfiles root.
    RootNotSet,
    /// There is no config file, no `--dotfiles` flag, and the working
    /// directory is no dotfiles repository.
    NoRootSupplied,
    /// A path starts with `~` and neither `HOME` nor `USERPROFILE` is set.
    HomeUnknown,
}

/// The mathematical value of an [`Error`].
pub enum ErrorView {
    ConfigMissing { path: Seq<char> },
    ConfigExists { path: Seq<char> },
    RegistryMissing { path: Seq<char> },
    DotfilesRootUnknown,
    UnknownTool { name: Seq<char>, available: Seq<char> },
    NotEnabled { name: Seq<char> },
    UnsupportedOs { name: Seq<char> },
    DestinationOccupied { path: Seq<char> },
    ConfigParse { path: Seq<char>, detail: Seq<char> },
    RootNotSet,
    NoRootSupplied,
    HomeUnknown,
}

impl View for Error {
    type V = ErrorView;

    open spec fn view(&self) -> ErrorView {
        match self {
            Error::ConfigMissing { path } => ErrorView::ConfigMissing { path: path@ },
            Error::ConfigExists { path } => ErrorView::ConfigExists { path: path@ },
            Error::RegistryMissing { path } => ErrorView::RegistryMissing { path: path@ },
            Error::DotfilesRootUnknown => ErrorView::DotfilesRootUnknown,
            Error::UnknownTool { name, available } => ErrorView::UnknownTool {
                name: name@,
                available: available@,
            },
            Error::NotEnabled { name } => ErrorView::NotEnabled { name: name@ },
            Error::UnsupportedOs { name } => ErrorView::UnsupportedOs { name: name@ },
            Error::DestinationOccupied { path } => ErrorView::DestinationOccupied { path: path@ },
            Error::ConfigParse { path, detail } => ErrorView::ConfigParse {
                path: path@,
                detail: detail@,
            },
            Error::RootNotSet => ErrorView::RootNotSet,
            Error::NoRootSupplied => ErrorView::NoRootSupplied,
            Error::HomeUnknown => ErrorView::HomeUnknown,
        }
    }
}

/// The text of each error.
pub open spec fn error_message(e: ErrorView) -> Seq<char> {
    match e {
        ErrorView::ConfigMissing { path } => "config not found at "@ + path
            + ". run `dotfm init` first"@,
        ErrorView::ConfigExists { path } => "config already exists at "@ + path
            + ". use --force to overwrite"@,
        ErrorView::RegistryMissing { path } => "dotfiles root "@ + path
            + " does not contain dotfm.toml"@,
        ErrorView::DotfilesRootUnknown =>
            "could not determine dotfiles root. pass --dotfiles <path> or run `dotfm init` first"@,
        ErrorView::UnknownTool { name, available } => "unknown tool `"@ + name + "`. available: "@
            + available,
        ErrorView::NotEnabled { name } => "tool `"@ + name + "` is not enabled on this machine"@,
        ErrorView::UnsupportedOs { name } => "tool `"@ + name
            + "` has no configuration for the current OS"@,
        ErrorView::DestinationOccupied { path } => "destination "@ + path
            + " exists and is not a symlink managed by dotfm; use --force to back it up and replace"@,
        ErrorView::ConfigParse { path, detail } => "parsing "@ + path + ": "@ + detail,
        ErrorView::RootNotSet => "dotfiles_root not set in config.toml"@,
        ErrorView::NoRootSupplied => "no config found and no dotfiles root supplied. pass --dotfiles <path>"@,
        ErrorView::HomeUnknown => "cannot expand ~ without HOME/USERPROFILE"@,
    }
}

impl Error {
    /// The text that describes this error to a user.
    pub fn message(&self) -> (r: String)
        ensures
            r@ == error_message(self@),
    {
        match self {
            Error::ConfigMissing { path } => concat3(
                "config not found at ",
                path.as_str(),
                ". run `dotfm init` first",
            ),
            Error::ConfigExists { path } => concat3(
                "config already exists at ",
                path.as_str(),
                ". use --force to overwrite",
            ),
            Error::RegistryMissing { path } => concat3(
                "dotfiles root ",
                path.as_str(),
                " does not contain dotfm.toml",
            ),
            Error::DotfilesRootUnknown => owned(
                "could not determine dotfiles root. pass --dotfiles <path> or run `dotfm init` first",
            ),
            Error::UnknownTool { name, available } => {
                let head = concat3("unknown tool `", name.as_str(), "`. available: ");
                concat2(head.as_str(), available.as_str())
            },
            Error::NotEnabled { name } => concat3(
                "tool `",
                name.as_str(),
                "` is not enabled on this machine",
            ),
            Error::UnsupportedOs { name } => concat3(
                "tool `",
                name.as_str(),
                "` has no configuration for the current OS",
            ),
            Error::DestinationOccupied { path } => concat3(
                "destination ",
                path.as_str(),
                " exists and is not a symlink managed by dotfm; use --force to back it up and replace",
            ),
            Error::ConfigParse { path, detail } => {
                let head = concat3("parsing ", path.as_str(), ": ");
                concat2(head.as_str(), detail.as_str())
            },
            Error::RootNotSet => owned("dotfiles_root not set in config.toml"),
            Error::NoRootSupplied => owned(
                "no config found and no dotfiles root supplied. pass --dotfiles <path>",
            ),
            Error::HomeUnknown => owned("cannot expand ~ without HOME/USERPROFILE"),
        }
    }
}

} // verus!
