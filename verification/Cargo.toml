[package]
name = "zibi"
version = "0.1.0"
edition = "2021"
publish = false

[dependencies]
serde = { version = "1", features = ["derive"] }
serde_json = "1"
toml = "*"
dirs = "*"
chrono = "0.4"
tracing = "0.1"
tracing-subscriber = "0.3"
niri-ipc = "*"
gtk4 = "*"
