[package]
name = "goopho"
version = "0.1.0"
edition = "2021"
publish = false

[dependencies]
rand = "0.8"
image = "0.24"
tokio = { version = "1", features = ["rt-multi-thread", "macros", "sync", "time", "fs", "io-util"] }
hyper = { version = "0.14", features = ["client", "http1", "tcp"] }
futures = "0.3"
argh = "0.1"
