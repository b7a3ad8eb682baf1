[package]
name = "my_agent"
version = "0.1.0"
edition = "2021"
publish = false

[dependencies]
anyhow = "=1.0.104"
rig-core = "=0.40.0"
rustyline = "=19.0.0"
serde = { version = "=1.0.229", features = ["derive"] }
serde_json = "=1.0.154"
thiserror = "=2.0.21"
tokio = { version = "=1.54.1", features = ["full"] }
toml = "=1.1.8"
tracing-subscriber = { version = "=0.3.23", features = ["env-filter"] }
