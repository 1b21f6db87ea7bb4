[package]
name = "reticulum_mobile"
version = "0.1.0"
edition = "2021"
publish = false

[dependencies]
reticulum = "*"
rand_core = { version = "0.6", features = ["getrandom"] }
tokio = { version = "1", features = ["full"] }
tokio-util = "0.7"
rusqlite = { version = "*", features = ["bundled"] }
serde_json = "1"
log = "0.4"
lazy_static = "1"
jni = "0.21"
