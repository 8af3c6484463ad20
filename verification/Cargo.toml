[package]
name = "async_runtime"
version = "0.1.0"
edition = "2021"
publish = false

[dependencies]
futures = "0.3"
mio = { version = "1", features = ["os-poll", "net"] }
