[package]
name = "melos_rs"
version = "0.1.0"
edition = "2021"
publish = false

[dependencies]
semver = "=1.0.28"
pathdiff = "=0.2.3"
anyhow = "=1.0.104"
clap = { version = "=4.6.7", features = ["derive"] }
colored = "=3.1.1"
tokio = { version = "=1.54.1", features = ["full"] }
serde = { version = "=1.0.229", features = ["derive"] }
yaml_serde = "=0.10.7"
glob = "=0.3.4"
ratatui = { version = "0.29", default-features = false }
