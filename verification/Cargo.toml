[package]
name = "pomodoro_engine"
version = "0.1.0"
edition = "2021"
publish = false

[dependencies]
env_logger = { version = "=0.11.11", default-features = false }
rusqlite = { version = "=0.37.0", features = ["bundled"] }
time = { version = "=0.3.55", features = ["local-offset"] }
