[package]
name = "pass_store"
version = "0.1.0"
edition = "2021"
publish = false

[dependencies]
tokio = { version = "*", default-features = false, features = ["fs", "process", "io-util", "rt"] }
zbus = { version = "*", default-features = false, features = ["tokio"] }
redb = "*"
