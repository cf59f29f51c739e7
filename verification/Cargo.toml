[package]
name = "diagnostics"
version = "0.1.0"
edition = "2021"
publish = false

[dependencies]
anyhow = "1"
ratatui = { version = "0.29", default-features = false }
serde_json = "1"
unicode-width = "0.2"
