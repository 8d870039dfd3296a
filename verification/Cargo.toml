[package]
name = "payments-toy-engine"
version = "0.1.0"
edition = "2021"
publish = false

[dependencies]
rust_decimal = { version = "1", default-features = false, features = ["std"] }
murmur2 = "0.1"
csv = "1"
crossbeam = "0.8"
color-eyre = "0.6"
tracing = "0.1"
