//! The decisions of each subcommand; the program around the library reads
//! the filesystem, carries the decisions out and prints.

pub mod util;
pub mod add;
pub mod apply;
pub mod remove;
pub mod status;
pub mod list;
pub mod init;
pub mod doctor;
pub mod diff;
