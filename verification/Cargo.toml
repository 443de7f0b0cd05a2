[package]
name = "deepdash"
version = "1.0.0"
edition = "2021"
publish = false

[dependencies]
semver = "1"
serde = { version = "1", features = ["derive"] }
serde_json = "1"
tokio = { version = "1", features = ["sync", "time", "process", "io-util", "rt"] }
reqwest = { version = "0.12", default-features = false, features = ["json"] }
get_if_addrs = "0.5"
tauri = { version = "2", default-features = false, features = ["tray-icon"] }
