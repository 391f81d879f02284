[package]
name = "project_e"
version = "0.1.0"
edition = "2021"
publish = false

[dependencies]
glob = "0.3"
uuid = { version = "1", features = ["v4", "serde"] }
chrono = { version = "0.4", features = ["serde"] }
serde = { version = "1", features = ["derive"] }
serde_json = "1"
toml = "0.8"
tokio = { version = "1", features = ["full"] }
tracing = "0.1"
async-trait = "0.1"
thiserror = "2"
syn = { version = "2", features = ["full", "visit"] }
dirs = "*"
rust_decimal = "1"
