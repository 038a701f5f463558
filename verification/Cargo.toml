[package]
name = "server"
version = "0.1.0"
edition = "2021"
publish = false

[dependencies]
rand = "=0.9.5"
uuid = { version = "=1.29.0", features = ["v4", "serde"] }
serde = { version = "=1.0.229", features = ["derive"] }
serde_json = "=1.0.154"
tokio = { version = "=1.54.1", features = ["full"] }
async-trait = "=0.1.92"
futures-util = { version = "=0.3.34", features = ["sink"] }
tokio-tungstenite = "=0.26.2"
tracing = "=0.1.44"
tracing-subscriber = { version = "=0.3.23", features = ["json", "time", "local-time"] }
tracing-appender = "=0.2.5"
time = { version = "=0.3.55", features = ["formatting", "parsing", "local-offset", "macros"] }
anyhow = "=1.0.104"
toml = "=0.8.23"
indicatif = "=0.17.11"
redis = { version = "0.27", features = ["tokio-comp"] }
