[package]
name = "upload_server"
version = "0.1.0"
edition = "2021"
publish = false

[dependencies]
glob = "0.3"
image = { version = "0.25", default-features = false, features = ["png", "jpeg"] }
log = "0.4"
serde = { version = "1", features = ["derive"] }
serde_json = "1"
tokio = { version = "1", features = ["rt-multi-thread", "macros", "sync", "time", "process"] }
