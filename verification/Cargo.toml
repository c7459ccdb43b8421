[package]
name = "fim_whodata"
version = "0.1.0"
edition = "2021"
publish = false

[dependencies]
anyhow = "*"
aya = { version = "*", features = ["async_tokio"] }
aya-log = "*"
bytes = "*"
clap = { version = "*", features = ["derive"] }
env_logger = "*"
log = "*"
serde_json = "*"
tokio = { version = "*", features = ["macros", "rt-multi-thread", "signal", "time", "net"] }
