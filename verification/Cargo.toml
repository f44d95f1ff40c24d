[package]
name = "porter"
version = "0.1.0"
edition = "2021"
publish = false

[dependencies]
cidr = "*"
clap = { version = "*", features = ["derive"] }
tokio = { version = "*", features = ["rt-multi-thread", "net", "sync"] }
