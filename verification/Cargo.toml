[package]
name = "phylax"
version = "0.1.0"
edition = "2021"
publish = false

[dependencies]
etc-passwd = "*"
tokio = { version = "*", features = ["io-util", "net", "process", "sync", "rt-multi-thread", "macros"] }
serde = { version = "*", features = ["derive"] }
figment = { version = "*", features = ["toml"] }
eyre = "*"
