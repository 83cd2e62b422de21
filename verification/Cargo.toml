[package]
name = "dotfm"
version = "0.0.6"
edition = "2021"
publish = false

[dependencies]
anyhow = "1"
clap = { version = "4", features = ["derive"] }
serde = { version = "1", features = ["derive"] }
shellexpand = "3"
similar = "2"
thiserror = "2"
toml = "*"
toml_edit = "*"
tracing-subscriber = { version = "0.3", features = ["env-filter"] }
