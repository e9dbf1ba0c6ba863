[package]
name = "kovi"
version = "0.1.0"
edition = "2021"
publish = false

[dependencies]
serde = { version = "1", features = ["derive"] }
serde_json = "1"
toml = "*"
tokio = { version = "1", features = ["rt-multi-thread", "sync", "macros", "signal", "time"] }
log = "0.4"
