[package]
name = "daemon_core"
version = "0.1.0"
edition = "2021"
publish = false

[dependencies]
libc = "0.2"
log = "0.4"
log-panics = "*"
tokio = { version = "1", default-features = false, features = ["rt-multi-thread", "fs", "net", "sync", "signal", "time", "io-util"] }
