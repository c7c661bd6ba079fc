[package]
name = "mev-boost"
version = "0.3.0"
edition = "2021"
publish = false

[dependencies]
anyhow = "=1.0.104"
async-trait = "=0.1.92"
axum = "=0.7.9"
backoff = { version = "=0.4.0", features = ["tokio"] }
clap = { version = "=4.6.7", features = ["derive", "env"] }
const_format = "=0.2.37"
futures = "=0.3.34"
parking_lot = "=0.12.5"
pin-project = "=1.1.13"
rand = "=0.8.8"
serde = { version = "=1.0.229", features = ["derive"] }
ssz_rs = "=0.9.0"
tokio = { version = "=1.54.1", features = ["full"] }
toml = "0.8"
tracing = "=0.1.44"
url = "=2.5.8"
