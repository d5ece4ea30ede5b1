[package]
name = "aether"
version = "0.1.0"
edition = "2021"
publish = false

[dependencies]
anyhow = "1"
argon2 = "=0.5.3"
async-trait = "0.1"
clap = { version = "4", features = ["derive"] }
http = "1"
http-body-util = "0.1"
hyper = { version = "1", features = ["server", "http1"] }
hyper-util = { version = "0.1", features = ["tokio"] }
jsonwebtoken = { version = "=9.3.1", default-features = false }
prometheus = { version = "0.13", default-features = false }
rand_core = { version = "=0.6.4", features = ["getrandom"] }
rkyv = "0.8"
serde = { version = "1", features = ["derive"] }
serde_json = { version = "=1.0.154", features = ["preserve_order", "raw_value"] }
tokio = { version = "1", features = ["full"] }
toml = "0.8"
tonic = { version = "=0.12.3", features = ["tls"] }
tower = "0.5"
tracing = "0.1"
tracing-appender = "0.2"
tracing-subscriber = { version = "0.3", features = ["env-filter", "json"] }
