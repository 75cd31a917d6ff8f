[package]
name = "jbt-desktop-fixer"
version = "0.1.0"
edition = "2021"
publish = false

[dependencies]
ansi_term = "0.12"
clap = { version = "4", features = ["derive"] }
dirs = "5"
eyre = "0.6"
log = "0.4"
notify = "6"
serde = { version = "1", features = ["derive"] }
toml = { version = "0.8", features = ["preserve_order"] }
