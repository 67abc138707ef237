[package]
name = "gif_relay"
version = "0.1.0"
edition = "2021"
publish = false

[dependencies]
linkify = "0.10"
serenity = "0.12"
tokio = { version = "1", features = ["macros", "rt-multi-thread", "time", "process"] }
futures = "0.3"
dotenvy = "0.15"
tracing = "0.1"
