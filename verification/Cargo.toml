[package]
name = "recorder"
version = "0.1.0"
edition = "2021"
publish = false

[dependencies]
proc-macro2 = "=1.0.107"
quote = "=1.0.47"
syn = { version = "=1.0.109", features = ["full", "extra-traits"] }
