[package]
name = "triageir-cli"
version = "0.1.0"
edition = "2021"
publish = false

[dependencies]
chrono = "*"
uuid = { version = "*", features = ["v4"] }
sha2 = "*"
hex = "*"
sysinfo = "*"
clap = "*"
walkdir = "*"

[dev-dependencies]
serde_json = "*"
