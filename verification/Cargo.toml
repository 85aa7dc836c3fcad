[package]
name = "async_component"
version = "0.1.0"
edition = "2021"
publish = false

[dependencies]
atomic-waker = "1"
bitflags = "1.3"
futures = { version = "0.3", default-features = false }
futures-core = { version = "0.3", default-features = false }
parking_lot = "0.12"
