[package]
name = "sclang_dispatch"
version = "0.1.0"
edition = "2021"
publish = false

[dependencies]
anyhow = "*"
bytes = "*"
clap = { version = "*", features = ["derive"] }
env_logger = "*"
log = "*"
reqwest = { version = "*", default-features = false }
serde_json = "*"
tokio = { version = "*", features = ["rt-multi-thread", "macros"] }
warp = { version = "=0.4.3", features = ["server"] }
