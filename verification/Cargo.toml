[package]
name = "stats_render"
version = "0.1.0"
edition = "2021"
publish = false

[dependencies]
svg = "=0.18.0"
anyhow = "*"
confique = "*"
dotenvy = "*"
secrecy = { version = "=0.10.3", features = ["serde"] }
tracing = "*"
