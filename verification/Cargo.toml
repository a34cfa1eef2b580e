[package]
name = "kipc"
version = "0.1.0"
edition = "2021"
publish = false

[dependencies]
ssmarshal = "1"
cortex-m = "0.7"

[dev-dependencies]
serde = "1"
