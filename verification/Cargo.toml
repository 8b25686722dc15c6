[package]
name = "multiutil"
version = "0.1.0"
edition = "2021"
publish = false

[dependencies]
multibase = "0.9"
serde = "1.0"
