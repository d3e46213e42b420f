[package]
name = "merge_steward"
version = "0.1.0"
edition = "2021"
publish = false

[dependencies]
chrono = { version = "=0.4.45", features = ["serde"] }
fs2 = "=0.4.3"
hex = "=0.4.3"
known-folders = "1"
nix = { version = "=0.30.1", features = ["user", "fs"] }
serde = { version = "=1.0.229", features = ["derive"] }
serde_json = "=1.0.154"
sha2 = "=0.10.9"
tempfile = "=3.27.0"
