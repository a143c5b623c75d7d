[package]
name = "atomr"
version = "0.1.0"
edition = "2021"
publish = false

[dependencies]
serde = { version = "1", features = ["derive"] }
serde_json = "1"
bincode = { version = "2", features = ["serde"] }
tokio = { version = "1", features = ["time", "rt", "macros", "sync"] }
toml = "*"
thiserror = "*"
parking_lot = "0.12"
