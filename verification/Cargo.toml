[package]
name = "git_branches"
version = "0.1.0"
edition = "2021"
publish = false

[dependencies]
clap = { version = "4", features = ["derive", "cargo"] }
color-eyre = "0.6"
config = { version = "0.14", default-features = false, features = ["ini", "json", "json5", "toml", "yaml"] }
crossterm = "0.27"
directories = "5"
git2 = { version = "0.19", default-features = false }
lazy_static = "1"
ratatui = "0.26"
regex = "1"
serde = { version = "1", features = ["derive"] }
thiserror = "1"
tokio = { version = "1", features = ["macros", "rt-multi-thread"] }
tracing = "0.1"
