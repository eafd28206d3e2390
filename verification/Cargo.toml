[package]
name = "lbsim"
version = "0.1.0"
edition = "2021"
publish = false

[dependencies]
anyhow = "1"
byte-unit = "5"
clap = { version = "4", features = ["derive"] }
futures = "0.3"
ipnet = "2"
rand = "0.8"
serde = { version = "1", features = ["derive"] }
serde_yaml = "0.9"
tokio = { version = "1", features = ["rt-multi-thread", "macros", "sync", "time"] }
