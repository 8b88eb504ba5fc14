[package]
name = "chat_relay"
version = "0.1.0"
edition = "2021"
publish = false

[dependencies]
tokio = { version = "1", features = ["sync", "rt-multi-thread", "macros", "signal", "fs"] }
tokio-stream = "0.1"
tonic = { version = "0.12", features = ["tls"] }
prost = "0.13"
clap = { version = "4", features = ["derive", "env"] }
dotenvy = "0.15"
tracing = "0.1"
tracing-subscriber = "0.3"
crossterm = "0.28"
directories = "5"
