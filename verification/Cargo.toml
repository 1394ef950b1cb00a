[package]
name = "benchhub"
version = "0.1.0"
edition = "2021"
publish = false

[dependencies]
regex = "=1.13.1"
toml = "=0.8.23"
serde = { version = "=1.0.229", features = ["derive"] }
serde_json = "=1.0.154"
dirs = "=7.0.0"
chrono = { version = "=0.4.45", default-features = false, features = ["alloc", "now"] }
sysinfo = { version = "=0.30.13", default-features = false }
rusqlite = { version = "0.32", features = ["bundled"] }
