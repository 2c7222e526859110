[package]
name = "file_rotate"
version = "0.1.0"
edition = "2021"
publish = false

[dependencies]
nix = "0.23"
regex = "1"
sha2 = "0.10"
rand = "0.8"
anyhow = "1"
serde = { version = "1", features = ["derive"] }
serde_json = "1"
serde_yaml = "0.9"
clap = { version = "4", features = ["derive"] }
tracing = "0.1"
tracing-subscriber = "0.3"

[dev-dependencies]
tempfile = "3"
