[package]
name = "container_monitor"
version = "0.1.0"
edition = "2021"
publish = false

[dependencies]
anyhow = "*"
cursive = "*"
tokio = { version = "*", features = ["macros", "rt-multi-thread", "process", "io-util", "sync"] }
tokio-stream = "*"
zbus = "*"
