[package]
name = "cargonode"
version = "0.1.0"
edition = "2021"
publish = false

[dependencies]
semver = "1"
chrono = { version = "0.4", default-features = false, features = ["std"] }
which = "*"
regex-syntax = "0.8"
serde = { version = "1", features = ["derive"] }
serde_json = "1"
clap = { version = "4", features = ["derive"] }
clap-cargo = "*"
thiserror = "*"
glob = "0.3"
sha2 = "0.10"

[dev-dependencies]
tempfile = "3"
