[package]
name = "telekinesis"
version = "0.1.0"
edition = "2021"
publish = false

[dependencies]
glam = { version = "*", features = ["mint"] }
stardust-xr-fusion = "=0.51.0"
stardust-xr-molecules = "=0.51.0"
tokio = { version = "1", features = ["rt-multi-thread", "macros"] }
tracing = "0.1"
tracing-subscriber = "0.3"
