[package]
name = "dhara_storage"
version = "0.1.0"
edition = "2021"
publish = false

[dependencies]
lz4_flex = "=0.11.6"
sha2 = "=0.10.9"
rmp-serde = "=1.3.1"
serde = { version = "=1.0.229", features = ["derive"] }
serde_json = "=1.0.154"
thiserror = "=2.0.21"
clap = { version = "=4.6.7", features = ["derive"] }
semver = "=1.0.28"
xmltree = "=0.12.0"
toml = "0.8"
toml_edit = "0.22"
