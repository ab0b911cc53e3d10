[package]
name = "libserver"
version = "0.1.0"
edition = "2021"
publish = false

[dependencies]
flate2 = "1"
rand = "0.9"
rbase64 = "*"
rusqlite = { version = "*", features = ["bundled"] }
jni = "0.21"
tracing = "0.1"
tracing-subscriber = { version = "0.3", features = ["env-filter"] }
tracing-android = "*"
