[package]
name = "hero"
version = "0.1.0"
edition = "2021"
publish = false

[dependencies]
anyhow = "*"
clap = "*"
reqwest = { version = "*", default-features = false }
serde_json = "*"
time = { version = "*", features = ["parsing"] }
tokio = { version = "*", features = ["macros", "rt-multi-thread"] }
tracing = "*"
tracing-subscriber = "*"
