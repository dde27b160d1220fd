[package]
name = "fand"
version = "0.1.0"
edition = "2021"
publish = false

[dependencies]
anyhow = "1"
clap = { version = "4", features = ["derive"] }
nvml-wrapper = "0.10"
serde = { version = "1", features = ["derive"] }
serde_json = "1"
signal-hook = "0.3"
tempfile = "3"
thiserror = "1"
toml = "0.8"
toml_edit = "0.22"
