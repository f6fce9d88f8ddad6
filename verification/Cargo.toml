[package]
name = "ractor_shell"
version = "0.1.0"
edition = "2021"
publish = false

[dependencies]
anyhow = "=1.0.104"
chrono = "=0.4.45"
clap = { version = "=4.6.7", features = ["derive"] }
colored = "=2.2.0"
dirs = "=5.0.1"
hostname = "=0.4.2"
ractor = { version = "=0.15.13", features = ["blanket_serde"] }
ractor_cluster = "=0.15.13"
rustyline = "=14.0.0"
serde = { version = "=1.0.229", features = ["derive"] }
serde_json = "=1.0.154"
tabled = "=0.16.0"
thiserror = "=1.0.69"
tokio = { version = "=1.54.1", features = ["full"] }
toml = "=0.8.23"
