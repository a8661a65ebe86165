[package]
name = "envoy_exporter"
version = "0.1.0"
edition = "2021"
publish = false

[dependencies]
serde_json = "1"
prometheus = { version = "*", default-features = false }
curl = "0.4"
hyper = "0.10"
toml = "*"
serde = { version = "1", features = ["derive"] }
