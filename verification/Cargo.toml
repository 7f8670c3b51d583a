[package]
name = "bitvm3"
version = "0.1.0"
edition = "2021"
publish = false

[dependencies]
num-bigint = "0.4"
num-integer = "0.1"
num-traits = "0.2"
rand = "0.9"
serde = { version = "1", features = ["derive"] }
strum = "0.27"
strum_macros = "0.27"
