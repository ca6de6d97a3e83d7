[package]
name = "mc_balancer"
version = "0.1.0"
edition = "2021"
publish = false

[dependencies]
rand = "=0.8.8"
serde = { version = "=1.0.229", features = ["derive"] }
serde_json = "=1.0.154"
serde_yaml = "=0.9.34"
thiserror = "=1.0.69"
log = "=0.4.34"
simple_logger = "=5.2.0"
tokio = { version = "=1.54.1", features = ["full"] }
futures = "=0.3.34"
async-trait = "=0.1.92"
hickory-resolver = "=0.24.4"
reqwest = { version = "=0.12.28", default-features = false, features = ["json", "rustls-tls"] }
redb = "=3.1.3"
uuid = "1"
