[package]
name = "homewiseai"
version = "0.1.0"
edition = "2021"
publish = false

[dependencies]
sysinfo = "*"
tokio = { version = "*", features = ["process", "time", "rt-multi-thread", "macros"] }
serde = { version = "*", features = ["derive"] }
serde_json = "*"
chrono = "*"
