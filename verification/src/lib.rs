pub mod text;
pub mod paths;
pub mod error;
pub mod os;
pub mod registry;
pub mod link;
pub mod style;
pub mod toml_doc;
pub mod config;
pub mod cli;
pub mod commands;
