[package]
name = "tg_relay"
version = "0.1.0"
edition = "2021"
publish = false

[dependencies]
futures = "*"
infer = "*"
rand = "*"
regex = "*"
tempfile = "*"
tokio = { version = "*", features = ["fs", "io-util", "macros", "process", "rt-multi-thread"] }
