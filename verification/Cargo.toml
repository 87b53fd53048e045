[package]
name = "encodingman"
version = "0.1.0"
edition = "2021"
publish = false

[dependencies]
encoding_rs = "0.8"
chardetng = "0.1"
serde = { version = "1", features = ["derive"] }
serde_json = "1"
dirs = "*"
open = "*"
