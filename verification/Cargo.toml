[package]
name = "numconv"
version = "0.1.0"
edition = "2021"
publish = false

[dependencies]
num-bigint = "*"
tracing = "*"
tracing-log = "*"
tracing-subscriber = { version = "*", features = ["env-filter"] }
tracing-tree = "*"
