[package]
name = "scalex_dash"
version = "0.1.0"
edition = "2021"
publish = false

[dependencies]
anyhow = "1"
chrono = "0.4"
crossterm = "0.28"
futures = "0.3"
k8s-openapi = { version = "0.24", features = ["v1_30"] }
kube = { version = "0.98", features = ["ws"] }
libc = "0.2"
ratatui = "0.29"
secrecy = "0.10"
serde = { version = "1", features = ["derive"] }
serde_json = "1"
serde_yaml = "0.9"
tokio = { version = "1", features = ["full"] }
