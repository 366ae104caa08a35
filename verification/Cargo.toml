[package]
name = "fluter"
version = "0.1.0"
edition = "2021"
publish = false

[dependencies]
anyhow = "*"
clap = { version = "*", features = ["derive"] }
shared_memory = "*"
tokio = { version = "*", features = ["rt-multi-thread", "macros", "net", "signal", "time", "io-util"] }
tracing = "*"
tracing-subscriber = "*"
