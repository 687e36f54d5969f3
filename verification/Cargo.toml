[package]
name = "photo_transfer"
version = "0.1.0"
edition = "2021"
publish = false

[dependencies]
chrono = { version = "=0.4.45", features = ["serde"] }
dirs = "=7.0.0"
hostname = "=0.4.2"
mdns-sd = "=0.21.6"
serde = { version = "=1.0.229", features = ["derive"] }
serde_json = "=1.0.154"
tokio = { version = "1", features = ["rt-multi-thread", "sync", "macros"] }
uuid = { version = "=1.29.0", features = ["v4"] }
warp = "0.3"
