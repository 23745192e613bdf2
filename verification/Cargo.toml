[package]
name = "clipvault"
version = "0.1.0"
edition = "2021"
publish = false

[dependencies]
serde_json = "*"
chrono = "*"
crossbeam = "*"
rusqlite = { version = "*", features = ["bundled"] }
arboard = { version = "*", default-features = false }
