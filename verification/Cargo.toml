[package]
name = "learn_rust"
version = "0.1.0"
edition = "2021"
publish = false

[dependencies]
num = "0.4"
rand = "0.8"
serde = { version = "1", features = ["derive"] }
futures-timer = "3"
heim = { version = "0.1.0-rc.1", features = ["cpu"] }
